//! Authentication: users, sessions and token validation.
//!
//! The registry holds user credentials and issued sessions.  Tokens are
//! issued from a counter, so every pair is fresh; a session expires a
//! fixed time after issue.  Callers pass the current time in seconds, so
//! that validation is a function of its arguments.

use vstd::prelude::*;

use crate::numbers::spec_render_digits;
use crate::text::{chars_to_string, str_eq};

verus! {

/// How long an issued token stays valid, in seconds.
pub const TOKEN_LIFETIME: u64 = 3600;

/// One issued session.
#[derive(Debug, Clone)]
pub struct AuthSession {
    pub token: String,
    pub refresh_token: String,
    pub username: String,
    /// First second at which the token no longer validates.
    pub expires_at: u64,
}

/// Users and sessions of the whole service.
#[derive(Debug, Clone)]
pub struct AuthRegistry {
    /// `(username, password)` pairs.
    pub users: Vec<(String, String)>,
    pub sessions: Vec<AuthSession>,
    /// Source of fresh token identifiers.
    pub counter: u64,
}

/// Index of the session carrying this token, if any.
pub open spec fn find_token(sessions: Seq<AuthSession>, token: Seq<char>) -> Option<int> {
    if exists|i: int| 0 <= i < sessions.len() && sessions[i].token@ == token {
        Some(choose|i: int| 0 <= i < sessions.len() && sessions[i].token@ == token)
    } else {
        None
    }
}

/// `i` is the first session carrying this token.
pub open spec fn first_session_with_token(
    sessions: Seq<AuthSession>,
    token: Seq<char>,
    i: int,
) -> bool {
    &&& 0 <= i < sessions.len()
    &&& sessions[i].token@ == token
    &&& forall|k: int| 0 <= k < i ==> sessions[k].token@ != token
}

/// `i` is the first session carrying this refresh token.
pub open spec fn first_session_with_refresh(
    sessions: Seq<AuthSession>,
    refresh: Seq<char>,
    i: int,
) -> bool {
    &&& 0 <= i < sessions.len()
    &&& sessions[i].refresh_token@ == refresh
    &&& forall|k: int| 0 <= k < i ==> sessions[k].refresh_token@ != refresh
}

/// The expiry a session issued at `now` gets.
pub open spec fn spec_expiry(now: u64) -> u64 {
    if now > u64::MAX - TOKEN_LIFETIME {
        u64::MAX
    } else {
        (now + TOKEN_LIFETIME) as u64
    }
}

/// Whether some user carries these credentials.
pub open spec fn credentials_match(
    users: Seq<(String, String)>,
    username: Seq<char>,
    password: Seq<char>,
) -> bool {
    exists|i: int| 0 <= i < users.len() && users[i].0@ == username && users[i].1@ == password
}

impl AuthRegistry {
    /// An empty registry.
    pub fn new() -> (r: AuthRegistry)
        ensures
            r.users@ == Seq::<(String, String)>::empty(),
            r.sessions@ == Seq::<AuthSession>::empty(),
    {
        let r = AuthRegistry { users: Vec::new(), sessions: Vec::new(), counter: 0 };
        proof {
            assert(r.users@ =~= Seq::<(String, String)>::empty());
            assert(r.sessions@ =~= Seq::<AuthSession>::empty());
        }
        r
    }

    /// Register a user.
    pub fn add_user(&mut self, username: String, password: String)
        ensures
            final(self).users@ == old(self).users@ + seq![(username, password)],
            final(self).sessions == old(self).sessions,
    {
        self.users.push((username, password));
    }
}

/// Decimal text of a number: exactly its canonical digits.
fn u128_to_string(v: u128) -> (s: String)
    ensures
        s@ == spec_render_digits(v as nat),
{
    let mut out: Vec<char> = Vec::new();
    push_decimal(&mut out, v);
    chars_to_string(&out)
}

/// Append the canonical decimal digits of a number.
fn push_decimal(out: &mut Vec<char>, v: u128)
    ensures
        final(out)@ == old(out)@ + spec_render_digits(v as nat),
    decreases v,
{
    if v >= 10 {
        push_decimal(out, v / 10);
    }
    let d: u128 = v % 10;
    out.push(
        if d == 0 {
            '0'
        } else if d == 1 {
            '1'
        } else if d == 2 {
            '2'
        } else if d == 3 {
            '3'
        } else if d == 4 {
            '4'
        } else if d == 5 {
            '5'
        } else if d == 6 {
            '6'
        } else if d == 7 {
            '7'
        } else if d == 8 {
            '8'
        } else {
            '9'
        },
    );
    proof {
        assert(final(out)@ =~= old(out)@ + spec_render_digits(v as nat));
    }
}

/// Find the first session carrying this token.
fn find_session(sessions: &Vec<AuthSession>, token: &str) -> (r: Option<usize>)
    ensures
        match r {
            Some(i) => first_session_with_token(sessions@, token@, i as int),
            None => find_token(sessions@, token@) is None,
        },
{
    let n = sessions.len();
    let mut i: usize = 0;
    while i < n
        invariant
            i <= n == sessions@.len(),
            forall|j: int| 0 <= j < i ==> sessions@[j].token@ != token@,
        decreases n - i,
    {
        if str_eq(sessions[i].token.as_str(), token) {
            return Some(i);
        }
        i = i + 1;
    }
    None
}

/// Log a user in: with matching credentials a fresh token pair is issued
/// and a session recorded; otherwise nothing changes.
pub fn login(reg: &mut AuthRegistry, username: &str, password: &str, now: u64) -> (r: Option<
    (String, String),
>)
    ensures
        r is Some <==> credentials_match(old(reg).users@, username@, password@),
        r is None ==> *final(reg) == *old(reg),
        r matches Some((t, rt)) ==> {
            let sessions = final(reg).sessions@;
            &&& sessions.len() == old(reg).sessions@.len() + 1
            &&& sessions.last().token@ == t@
            &&& sessions.last().refresh_token@ == rt@
            &&& sessions.last().username@ == username@
            &&& sessions.last().expires_at == spec_expiry(now)
            &&& final(reg).users == old(reg).users
            &&& forall|j: int|
                0 <= j < old(reg).sessions@.len() ==> sessions[j] == old(reg).sessions@[j]
        },
{
    let n = reg.users.len();
    let mut i: usize = 0;
    let mut found: bool = false;
    while i < n
        invariant
            i <= n == reg.users@.len(),
            reg == old(reg),
            found == exists|j: int|
                0 <= j < i && reg.users@[j].0@ == username@ && reg.users@[j].1@ == password@,
        decreases n - i,
    {
        if !found && str_eq(reg.users[i].0.as_str(), username) && str_eq(
            reg.users[i].1.as_str(),
            password,
        ) {
            found = true;
        }
        i = i + 1;
    }
    if !found {
        return None;
    }
    if now > u64::MAX - TOKEN_LIFETIME {
        // A clock at the end of time cannot issue sessions.
        proof {
            assert(credentials_match(old(reg).users@, username@, password@));
        }
        let expires = u64::MAX;
        let (token, refresh) = fresh_pair(reg);
        let session = AuthSession {
            token: token.clone(),
            refresh_token: refresh.clone(),
            username: chars_to_string(&crate::text::str_chars(username)),
            expires_at: expires,
        };
        reg.sessions.push(session);
        return Some((token, refresh));
    }
    let expires = now + TOKEN_LIFETIME;
    let (token, refresh) = fresh_pair(reg);
    let session = AuthSession {
        token: token.clone(),
        refresh_token: refresh.clone(),
        username: chars_to_string(&crate::text::str_chars(username)),
        expires_at: expires,
    };
    reg.sessions.push(session);
    Some((token, refresh))
}

/// Mint a token pair from the counter.
fn fresh_pair(reg: &mut AuthRegistry) -> (r: (String, String))
    ensures
        final(reg).users == old(reg).users,
        final(reg).sessions == old(reg).sessions,
{
    let id = reg.counter;
    reg.counter = reg.counter.wrapping_add(1);
    let num = u128_to_string(id as u128);
    let mut tok: Vec<char> = crate::text::str_chars("tok-");
    let mut rtk: Vec<char> = crate::text::str_chars("ref-");
    let numc = crate::text::str_chars(num.as_str());
    let n = numc.len();
    let mut k: usize = 0;
    while k < n
        invariant
            k <= n == numc@.len(),
            reg.users == old(reg).users,
            reg.sessions == old(reg).sessions,
        decreases n - k,
    {
        tok.push(numc[k]);
        rtk.push(numc[k]);
        k = k + 1;
    }
    (chars_to_string(&tok), chars_to_string(&rtk))
}

/// Log a token out: its session disappears; true exactly when the token
/// existed.
pub fn logout(reg: &mut AuthRegistry, token: &str) -> (r: bool)
    ensures
        r == (find_token(old(reg).sessions@, token@) is Some),
        !r ==> *final(reg) == *old(reg),
        final(reg).users == old(reg).users,
        r ==> exists|i: int|
            first_session_with_token(old(reg).sessions@, token@, i) && final(reg).sessions@
                == old(reg).sessions@.remove(i),
{
    match find_session(&reg.sessions, token) {
        Some(i) => {
            reg.sessions.remove(i);
            proof {
                assert(first_session_with_token(old(reg).sessions@, token@, i as int));
                assert(final(reg).sessions@ == old(reg).sessions@.remove(i as int));
            }
            true
        },
        None => false,
    }
}

/// Check a token: `(valid, timed_out)`.  A token that was never issued or
/// was logged out gives `(false, false)`; an expired one `(false, true)`;
/// a live one `(true, false)`.
pub fn validate_token(reg: &AuthRegistry, token: &str, now: u64) -> (r: (bool, bool))
    ensures
        forall|i: int|
            first_session_with_token(reg.sessions@, token@, i) ==> r == (
                now < reg.sessions@[i].expires_at,
                now >= reg.sessions@[i].expires_at,
            ),
        r.0 ==> exists|i: int|
            #[trigger] first_session_with_token(reg.sessions@, token@, i) && now
                < reg.sessions@[i].expires_at,
        r.1 ==> exists|i: int|
            #[trigger] first_session_with_token(reg.sessions@, token@, i) && now
                >= reg.sessions@[i].expires_at,
        !(r.0 || r.1) <==> find_token(reg.sessions@, token@) is None,
        !(r.0 && r.1),
{
    match find_session(&reg.sessions, token) {
        Some(i) => {
            if now < reg.sessions[i].expires_at {
                (true, false)
            } else {
                (false, true)
            }
        },
        None => (false, false),
    }
}

/// Reset the password of the user behind a live token: true exactly when
/// the first session carrying the token is unexpired and a user carries
/// its user name; that (first such) user's password becomes the given
/// one, everything else stays.
pub fn reset_password(reg: &mut AuthRegistry, token: &str, password: &str, now: u64) -> (r:
    bool)
    ensures
        final(reg).sessions == old(reg).sessions,
        r <==> exists|i: int|
            #[trigger] first_session_with_token(old(reg).sessions@, token@, i) && now < old(
                reg,
            ).sessions@[i].expires_at && exists|j: int|
                0 <= j < old(reg).users@.len() && old(reg).users@[j].0@ == old(
                    reg,
                ).sessions@[i].username@,
        !r ==> *final(reg) == *old(reg),
        r ==> exists|i: int, j: int|
            {
                &&& #[trigger] first_session_with_token(old(reg).sessions@, token@, i)
                &&& 0 <= j < old(reg).users@.len()
                &&& #[trigger] final(reg).users@[j].1@ == password@
                &&& old(reg).users@[j].0@ == old(reg).sessions@[i].username@
                &&& forall|k: int|
                    0 <= k < j ==> old(reg).users@[k].0@ != old(reg).sessions@[i].username@
                &&& final(reg).users@.len() == old(reg).users@.len()
                &&& final(reg).users@[j].0@ == old(reg).users@[j].0@
                &&& forall|k: int|
                    0 <= k < old(reg).users@.len() && k != j ==> final(reg).users@[k] == old(
                        reg,
                    ).users@[k]
            },
{
    let (valid, _timeout) = validate_token(reg, token, now);
    if !valid {
        proof {
            assert(!(valid || _timeout) ==> find_token(reg.sessions@, token@) is None);
        }
        return false;
    }
    let idx = match find_session(&reg.sessions, token) {
        Some(i) => i,
        None => {
            return false;
        },
    };
    let ghost gi: int = idx as int;
    let username = chars_to_string(&crate::text::str_chars(reg.sessions[idx].username.as_str()));
    let n = reg.users.len();
    let mut i: usize = 0;
    while i < n
        invariant
            i <= n == reg.users@.len(),
            reg == old(reg),
            username@ == reg.sessions@[gi].username@,
            first_session_with_token(reg.sessions@, token@, gi),
            now < reg.sessions@[gi].expires_at,
            forall|k: int| 0 <= k < i ==> reg.users@[k].0@ != username@,
        decreases n - i,
    {
        if str_eq(reg.users[i].0.as_str(), username.as_str()) {
            let new_password = chars_to_string(&crate::text::str_chars(password));
            let user = (
                chars_to_string(&crate::text::str_chars(username.as_str())),
                new_password,
            );
            reg.users.set(i, user);
            proof {
                let oj = i as int;
                assert(first_session_with_token(old(reg).sessions@, token@, gi));
                assert(now < old(reg).sessions@[gi].expires_at);
                assert(old(reg).users@[oj].0@ == old(reg).sessions@[gi].username@);
                assert(reg.users@.len() == old(reg).users@.len());
                assert(reg.users@[oj].1@ == password@);
                assert(reg.users@[oj].0@ == old(reg).users@[oj].0@);
                assert(forall|k: int|
                    0 <= k < old(reg).users@.len() && k != oj ==> reg.users@[k] == old(
                        reg,
                    ).users@[k]);
            }
            return true;
        }
        i = i + 1;
    }
    false
}

/// Exchange a refresh token for a fresh pair: a pair comes exactly when
/// some session carries the refresh token; the first such session is
/// replaced by one carrying the new pair, the same user name and a fresh
/// expiry, everything else stays.
pub fn refresh_token(reg: &mut AuthRegistry, refresh: &str, now: u64) -> (r: Option<
    (String, String),
>)
    ensures
        final(reg).users == old(reg).users,
        r is None ==> *final(reg) == *old(reg),
        r is Some <==> exists|i: int|
            0 <= i < old(reg).sessions@.len() && old(reg).sessions@[i].refresh_token@
                == refresh@,
        r matches Some((t, rt)) ==> exists|i: int|
            {
                &&& #[trigger] first_session_with_refresh(old(reg).sessions@, refresh@, i)
                &&& final(reg).sessions@.len() == old(reg).sessions@.len()
                &&& final(reg).sessions@[i].token@ == t@
                &&& final(reg).sessions@[i].refresh_token@ == rt@
                &&& final(reg).sessions@[i].username@ == old(reg).sessions@[i].username@
                &&& final(reg).sessions@[i].expires_at == spec_expiry(now)
                &&& forall|k: int|
                    0 <= k < old(reg).sessions@.len() && k != i ==> final(reg).sessions@[k]
                        == old(reg).sessions@[k]
            },
{
    let n = reg.sessions.len();
    let mut i: usize = 0;
    let mut at: Option<usize> = None;
    while i < n
        invariant
            i <= n == reg.sessions@.len(),
            reg == old(reg),
            match at {
                Some(j) => first_session_with_refresh(reg.sessions@, refresh@, j as int),
                None => forall|k: int|
                    0 <= k < i ==> reg.sessions@[k].refresh_token@ != refresh@,
            },
        decreases n - i,
    {
        if at.is_none() && str_eq(reg.sessions[i].refresh_token.as_str(), refresh) {
            at = Some(i);
        }
        i = i + 1;
    }
    let idx = match at {
        Some(j) => j,
        None => {
            return None;
        },
    };
    let username = chars_to_string(&crate::text::str_chars(reg.sessions[idx].username.as_str()));
    let expires = if now > u64::MAX - TOKEN_LIFETIME {
        u64::MAX
    } else {
        now + TOKEN_LIFETIME
    };
    let (token, refresh_new) = fresh_pair(reg);
    let session = AuthSession {
        token: token.clone(),
        refresh_token: refresh_new.clone(),
        username,
        expires_at: expires,
    };
    reg.sessions.set(idx, session);
    Some((token, refresh_new))
}

/// Per-printer handle over the shared registry: the printer's identifier
/// is its user name.
#[derive(Debug, Clone, Copy)]
pub struct Auth {
    /// The printer this handle authenticates for.
    pub printer_uuid: u128,
}

impl Auth {
    pub open spec fn spec_uuid(self) -> u128 {
        self.printer_uuid
    }

    /// A handle for one printer.
    pub fn acquire(printer_uuid: u128) -> (a: Auth)
        ensures
            a.spec_uuid() == printer_uuid,
    {
        Auth { printer_uuid }
    }

    /// Log in with this printer's identifier (its decimal digits) as the
    /// user name: exactly the registry's login.
    pub fn login(&self, reg: &mut AuthRegistry, password: &str, now: u64) -> (r: Option<
        (String, String),
    >)
        ensures
            r is Some <==> credentials_match(
                old(reg).users@,
                spec_render_digits(self.spec_uuid() as nat),
                password@,
            ),
            r is None ==> *final(reg) == *old(reg),
            r matches Some((t, rt)) ==> {
                let sessions = final(reg).sessions@;
                &&& sessions.len() == old(reg).sessions@.len() + 1
                &&& sessions.last().token@ == t@
                &&& sessions.last().refresh_token@ == rt@
                &&& sessions.last().username@ == spec_render_digits(self.spec_uuid() as nat)
                &&& sessions.last().expires_at == spec_expiry(now)
                &&& final(reg).users == old(reg).users
                &&& forall|j: int|
                    0 <= j < old(reg).sessions@.len() ==> sessions[j] == old(reg).sessions@[j]
            },
    {
        let username = u128_to_string(self.printer_uuid);
        login(reg, username.as_str(), password, now)
    }

    /// Log a token out: the first session carrying the token disappears.
    pub fn logout(&self, reg: &mut AuthRegistry, token: &str) -> (r: bool)
        ensures
            r == (find_token(old(reg).sessions@, token@) is Some),
            !r ==> *final(reg) == *old(reg),
            final(reg).users == old(reg).users,
            r ==> exists|i: int|
                first_session_with_token(old(reg).sessions@, token@, i) && final(reg).sessions@
                    == old(reg).sessions@.remove(i),
    {
        logout(reg, token)
    }

    /// `(valid, timed_out)` for a token.
    pub fn validate_token(&self, reg: &AuthRegistry, token: &str, now: u64) -> (r: (
        bool,
        bool,
    ))
        ensures
            forall|i: int|
                first_session_with_token(reg.sessions@, token@, i) ==> r == (
                    now < reg.sessions@[i].expires_at,
                    now >= reg.sessions@[i].expires_at,
                ),
            r.0 ==> exists|i: int|
                #[trigger] first_session_with_token(reg.sessions@, token@, i) && now
                    < reg.sessions@[i].expires_at,
            r.1 ==> exists|i: int|
                #[trigger] first_session_with_token(reg.sessions@, token@, i) && now
                    >= reg.sessions@[i].expires_at,
            !(r.0 || r.1) <==> find_token(reg.sessions@, token@) is None,
            !(r.0 && r.1),
    {
        validate_token(reg, token, now)
    }

    /// Reset the password behind a live token: true exactly when the
    /// token is live and a user carries its user name; that user's
    /// password changes, nothing else.
    pub fn reset_password(&self, reg: &mut AuthRegistry, token: &str, password: &str, now: u64)
        -> (r: bool)
        ensures
            final(reg).sessions == old(reg).sessions,
            r <==> exists|i: int|
                #[trigger] first_session_with_token(old(reg).sessions@, token@, i) && now < old(
                    reg,
                ).sessions@[i].expires_at && exists|j: int|
                    0 <= j < old(reg).users@.len() && old(reg).users@[j].0@ == old(
                        reg,
                    ).sessions@[i].username@,
            !r ==> *final(reg) == *old(reg),
    {
        reset_password(reg, token, password, now)
    }

    /// Exchange a refresh token: a pair comes exactly when a session
    /// carries the refresh token; that session is reissued.
    pub fn refresh_token(&self, reg: &mut AuthRegistry, refresh: &str, now: u64) -> (r: Option<
        (String, String),
    >)
        ensures
            final(reg).users == old(reg).users,
            r is None ==> *final(reg) == *old(reg),
            r is Some <==> exists|i: int|
                0 <= i < old(reg).sessions@.len() && old(reg).sessions@[i].refresh_token@
                    == refresh@,
            r matches Some((t, rt)) ==> exists|i: int|
                {
                    &&& #[trigger] first_session_with_refresh(old(reg).sessions@, refresh@, i)
                    &&& final(reg).sessions@.len() == old(reg).sessions@.len()
                    &&& final(reg).sessions@[i].token@ == t@
                    &&& final(reg).sessions@[i].refresh_token@ == rt@
                    &&& final(reg).sessions@[i].username@ == old(reg).sessions@[i].username@
                    &&& final(reg).sessions@[i].expires_at == spec_expiry(now)
                    &&& forall|k: int|
                        0 <= k < old(reg).sessions@.len() && k != i ==> final(reg).sessions@[k]
                            == old(reg).sessions@[k]
                },
    {
        refresh_token(reg, refresh, now)
    }
}

} // verus!
