//! The optional login gate for flock's own web UI (separate from a device's
//! BirdUI password). Off when no admin password is configured; otherwise
//! every route but the static frontend, `/health` and login/logout needs a
//! session. Sessions are random tokens held in memory only. Wrong passwords
//! are counted process-wide: after five, logins pause for thirty seconds.

use vstd::prelude::*;

use crate::device::{is_v4_uuid, random_uuid};
use crate::error::ApiError;
use crate::hex::{encode_hex, hex_chars, is_hex_ascii, lemma_hex_chars_ascii, lemma_hex_chars_len};
use crate::text::{
    decimal, decimal_string, owned, push_char, push_str, split_char, split_on, starts_with,
    strip_prefix, trim, trim_str, views,
};

verus! {

/// Failed logins that start a lockout.
pub const MAX_FAILURES: u32 = 5;

/// Length of a lockout, in nanoseconds (30 s).
pub const LOCKOUT_NANOS: u64 = 30_000_000_000;

// ---------------------------------------------------------------------------
// The clock (std)
// ---------------------------------------------------------------------------

#[verifier::external_type_specification]
#[verifier::external_body]
pub struct ExInstant(std::time::Instant);

/// `Instant::now()` (std): the current monotonic instant.
#[verifier::external_body]
fn instant_now() -> (i: std::time::Instant) {
    std::time::Instant::now()
}

/// `origin.elapsed()` (std) in whole nanoseconds, saturating at `u64::MAX`.
/// The value depends on the clock; nothing is claimed of it.
#[verifier::external_body]
fn nanos_since(origin: &std::time::Instant) -> (n: u64) {
    u64::try_from(origin.elapsed().as_nanos()).unwrap_or(u64::MAX)
}

// ---------------------------------------------------------------------------
// Login guard
// ---------------------------------------------------------------------------

/// The guard's state: failures since the last success, and the instant
/// (nanoseconds on the guard's clock) a lockout lasts until.
pub struct LoginGuardView {
    pub failures: u32,
    pub locked_until: Option<u64>,
}

/// The remaining lockout at `now`, if one is active.
pub open spec fn locked_at(g: LoginGuardView, now: u64) -> Option<u64> {
    match g.locked_until {
        Some(until) => if now < until {
            Some((until - now) as u64)
        } else {
            None
        },
        None => None,
    }
}

/// The guard after a failed login at `now`: one more failure, and from the
/// fifth on, a lockout of thirty seconds from `now`.
pub open spec fn after_failure(g: LoginGuardView, now: u64) -> LoginGuardView {
    let failures = if g.failures == u32::MAX {
        u32::MAX
    } else {
        (g.failures + 1) as u32
    };
    LoginGuardView {
        failures,
        locked_until: if failures >= MAX_FAILURES {
            Some(
                if now as nat + LOCKOUT_NANOS as nat > u64::MAX as nat {
                    u64::MAX
                } else {
                    (now + LOCKOUT_NANOS) as u64
                },
            )
        } else {
            g.locked_until
        },
    }
}

/// A guard with no failures and no lockout.
pub open spec fn fresh_guard() -> LoginGuardView {
    LoginGuardView { failures: 0, locked_until: None }
}

/// Guards process-wide against unlimited password guesses.
pub struct LoginGuard {
    origin: std::time::Instant,
    failures: u32,
    locked_until: Option<u64>,
}

impl View for LoginGuard {
    type V = LoginGuardView;

    closed spec fn view(&self) -> LoginGuardView {
        LoginGuardView { failures: self.failures, locked_until: self.locked_until }
    }
}

impl LoginGuard {
    /// A guard with no failures recorded.
    pub fn new() -> (g: Self)
        ensures
            g@ == fresh_guard(),
    {
        LoginGuard { origin: instant_now(), failures: 0, locked_until: None }
    }

    /// The current time on this guard's clock.
    pub fn now(&self) -> u64 {
        nanos_since(&self.origin)
    }

    /// The lockout remaining at `now`, if one is active.
    pub fn check_locked_at(&self, now: u64) -> (r: Option<u64>)
        ensures
            r == locked_at(self@, now),
    {
        match self.locked_until {
            Some(until) => if now < until {
                Some(until - now)
            } else {
                None
            },
            None => None,
        }
    }

    /// The lockout remaining now, in nanoseconds, if one is active.
    pub fn check_locked(&self) -> (r: Option<u64>)
        ensures
            exists|now: u64| r == locked_at(self@, now),
    {
        let now = self.now();
        self.check_locked_at(now)
    }

    /// Records a failed login at `now`.
    pub fn record_failure_at(&mut self, now: u64)
        ensures
            final(self)@ == after_failure(old(self)@, now),
    {
        self.failures = self.failures.saturating_add(1);
        if self.failures >= MAX_FAILURES {
            self.locked_until = Some(now.saturating_add(LOCKOUT_NANOS));
        }
    }

    /// Records a failed login now.
    pub fn record_failure(&mut self)
        ensures
            exists|now: u64| final(self)@ == after_failure(old(self)@, now),
    {
        let now = self.now();
        self.record_failure_at(now);
    }

    /// Records a successful login: failures and lockout are cleared.
    pub fn record_success(&mut self)
        ensures
            final(self)@ == fresh_guard(),
    {
        self.failures = 0;
        self.locked_until = None;
    }
}

/// A guard that has seen fewer than five failures since its last success
/// is never locked.
pub open spec fn guard_consistent(g: LoginGuardView) -> bool {
    g.failures < MAX_FAILURES ==> g.locked_until is None
}

/// Consistency holds from the start and is kept by every transition.
pub proof fn lemma_guard_consistent_kept(g: LoginGuardView, now: u64)
    requires
        guard_consistent(g),
    ensures
        guard_consistent(fresh_guard()),
        guard_consistent(after_failure(g, now)),
{
}

/// Below the failure threshold a guard is not locked, whatever the time.
pub proof fn lemma_not_locked_below_threshold(g: LoginGuardView, now: u64)
    requires
        guard_consistent(g),
        g.failures < MAX_FAILURES,
    ensures
        locked_at(g, now) is None,
{
}

/// The failure that reaches the threshold locks the guard for exactly the
/// lockout period (when the clock is not near its end).
pub proof fn lemma_lockout_after_max_failures(g: LoginGuardView, now: u64)
    requires
        g.failures >= MAX_FAILURES - 1,
        now as nat + LOCKOUT_NANOS as nat <= u64::MAX as nat,
    ensures
        locked_at(after_failure(g, now), now) == Some(LOCKOUT_NANOS),
{
}

/// A lockout lasts no longer than the lockout period.
pub proof fn lemma_lockout_bounded(g: LoginGuardView, now: u64, later: u64)
    requires
        guard_consistent(g),
        now <= later,
    ensures
        locked_at(after_failure(g, now), later) matches Some(r) ==> r <= LOCKOUT_NANOS,
{
}

// ---------------------------------------------------------------------------
// Password check
// ---------------------------------------------------------------------------

/// Compares two passwords in time that depends only on their lengths.
pub fn constant_time_eq(a: &str, b: &str) -> (r: bool)
    ensures
        r == (a@ == b@),
{
    let x = a.as_bytes();
    let y = b.as_bytes();
    proof {
        vstd::utf8::encode_utf8_decode_utf8(a@);
        vstd::utf8::encode_utf8_decode_utf8(b@);
    }
    if x.len() != y.len() {
        return false;
    }
    let mut diff: u8 = 0;
    let mut i: usize = 0;
    while i < x.len()
        invariant
            x@.len() == y@.len(),
            i <= x@.len(),
            (diff == 0) == (forall|k: int| 0 <= k < i ==> x@[k] == y@[k]),
        decreases x.len() - i,
    {
        let xi = x[i];
        let yi = y[i];
        let d = xi ^ yi;
        let old_diff = diff;
        diff = diff | d;
        proof {
            assert((old_diff | d == 0) == (old_diff == 0 && d == 0)) by (bit_vector);
            assert((d == 0) == (xi == yi)) by (bit_vector)
                requires
                    d == xi ^ yi,
            ;
        }
        i = i + 1;
    }
    proof {
        if diff == 0 {
            assert(x@ =~= y@);
        } else {
            assert(x@ != y@);
        }
    }
    diff == 0
}

// ---------------------------------------------------------------------------
// Sessions
// ---------------------------------------------------------------------------

/// The session cookie's name.
pub open spec fn cookie_name() -> Seq<char> {
    "flock_session"@
}

/// The first cookie of a `Cookie:` header (split at `;`, each part trimmed)
/// that starts with `flock_session=`, without that prefix.
pub open spec fn first_session(pieces: Seq<Seq<char>>) -> Option<Seq<char>>
    decreases pieces.len(),
{
    if pieces.len() == 0 {
        None
    } else {
        let p = trim(pieces[0]);
        if starts_with(p, "flock_session="@) {
            Some(p.subrange("flock_session="@.len() as int, p.len() as int))
        } else {
            first_session(pieces.drop_first())
        }
    }
}

/// The session token carried by a `Cookie:` header, if any.
pub fn session_token(cookie_header: Option<&str>) -> (r: Option<String>)
    ensures
        match cookie_header {
            None => r is None,
            Some(h) => match first_session(split_on(h@, ';')) {
                Some(t) => r matches Some(s) && s@ == t,
                None => r is None,
            },
        },
{
    let raw = match cookie_header {
        None => {
            return None;
        },
        Some(h) => h,
    };
    let pieces = split_char(raw, ';');
    let ghost pv = views(pieces@);
    let mut i: usize = 0;
    assert(pv.skip(0) == pv);
    while i < pieces.len()
        invariant
            i <= pieces@.len(),
            pv == views(pieces@),
            pv == split_on(raw@, ';'),
            cookie_header == Some(raw),
            first_session(pv) == first_session(pv.skip(i as int)),
        decreases pieces.len() - i,
    {
        let p = trim_str(pieces[i].as_str());
        proof {
            assert(pv.skip(i as int)[0] == pieces@[i as int]@);
            assert(pv.skip(i as int).drop_first() == pv.skip(i + 1));
        }
        match strip_prefix(p.as_str(), "flock_session=") {
            Some(rest) => {
                proof {
                    let q = pv.skip(i as int);
                    assert(q.len() > 0);
                    assert(trim(q[0]) == p@);
                    assert(starts_with(p@, "flock_session="@));
                    assert(first_session(q) == Some(
                        p@.subrange("flock_session="@.len() as int, p@.len() as int),
                    ));
                    assert(first_session(split_on(raw@, ';')) == Some(rest@));
                    assert(cookie_header == Some(raw));
                }
                return Some(rest);
            },
            None => {},
        }
        i = i + 1;
    }
    assert(pv.skip(i as int).len() == 0);
    None
}

/// The valid session tokens.
pub struct SessionStore {
    tokens: Vec<String>,
}

pub open spec fn token_set(tokens: Seq<String>) -> Set<Seq<char>> {
    Set::new(|t: Seq<char>| exists|i: int| 0 <= i < tokens.len() && (#[trigger] tokens[i])@ == t)
}

impl View for SessionStore {
    type V = Set<Seq<char>>;

    closed spec fn view(&self) -> Set<Seq<char>> {
        token_set(self.tokens@)
    }
}

impl SessionStore {
    /// No sessions.
    pub fn new() -> (s: Self)
        ensures
            s@ == Set::<Seq<char>>::empty(),
    {
        let s = SessionStore { tokens: Vec::new() };
        assert(s@ =~= Set::<Seq<char>>::empty());
        s
    }

    /// Whether `token` is a valid session.
    pub fn contains(&self, token: &str) -> (r: bool)
        ensures
            r == self@.contains(token@),
    {
        let mut i: usize = 0;
        while i < self.tokens.len()
            invariant
                i <= self.tokens@.len(),
                forall|k: int| 0 <= k < i ==> (#[trigger] self.tokens@[k])@ != token@,
            decreases self.tokens.len() - i,
        {
            if crate::text::str_eq(self.tokens[i].as_str(), token) {
                assert(token_set(self.tokens@).contains(token@));
                return true;
            }
            i = i + 1;
        }
        false
    }

    /// Adds a session.
    pub fn insert(&mut self, token: String)
        ensures
            final(self)@ == old(self)@.insert(token@),
    {
        let ghost t = token@;
        let ghost before = self.tokens@;
        self.tokens.push(token);
        proof {
            assert forall|u: Seq<char>| #[trigger] token_set(self.tokens@).contains(u) == token_set(
                before,
            ).insert(t).contains(u) by {
                if token_set(before).contains(u) {
                    let i = choose|i: int| 0 <= i < before.len() && (#[trigger] before[i])@ == u;
                    assert(self.tokens@[i] == before[i]);
                }
                if u == t {
                    assert(self.tokens@[before.len() as int]@ == t);
                }
                if token_set(self.tokens@).contains(u) && u != t {
                    let i = choose|i: int| 0 <= i < self.tokens@.len() && (#[trigger] self.tokens@[i])@ == u;
                    assert(i < before.len());
                    assert(before[i] == self.tokens@[i]);
                }
            }
            assert(token_set(self.tokens@) =~= token_set(before).insert(t));
        }
    }

    /// Ends a session.
    pub fn remove(&mut self, token: &str)
        ensures
            final(self)@ == old(self)@.remove(token@),
    {
        let ghost before = self.tokens@;
        let mut kept: Vec<String> = Vec::new();
        let mut i: usize = 0;
        while i < self.tokens.len()
            invariant
                i <= self.tokens@.len(),
                self.tokens@ == before,
                forall|u: Seq<char>| #[trigger] token_set(kept@).contains(u) == (token_set(before.take(i as int)).contains(u) && u != token@),
            decreases self.tokens.len() - i,
        {
            let keep = !crate::text::str_eq(self.tokens[i].as_str(), token);
            let ghost kb = kept@;
            if keep {
                kept.push(self.tokens[i].clone());
            }
            proof {
                let prev = before.take(i as int);
                let next = before.take(i + 1);
                assert forall|u: Seq<char>| #[trigger] token_set(kept@).contains(u) == (token_set(next).contains(u) && u != token@) by {
                    if token_set(next).contains(u) {
                        let j = choose|j: int| 0 <= j < next.len() && (#[trigger] next[j])@ == u;
                        if j < i {
                            assert(prev[j] == next[j]);
                            assert(token_set(prev).contains(u));
                        }
                    }
                    if token_set(prev).contains(u) {
                        let j = choose|j: int| 0 <= j < prev.len() && (#[trigger] prev[j])@ == u;
                        assert(next[j] == prev[j]);
                    }
                    if token_set(kept@).contains(u) {
                        let j = choose|j: int| 0 <= j < kept@.len() && (#[trigger] kept@[j])@ == u;
                        if j < kb.len() {
                            assert(kept@[j] == kb[j]);
                            assert(token_set(kb).contains(u));
                        } else {
                            assert(next[i as int] == before[i as int]);
                        }
                    }
                    if token_set(kb).contains(u) {
                        let j = choose|j: int| 0 <= j < kb.len() && (#[trigger] kb[j])@ == u;
                        assert(kept@[j] == kb[j]);
                    }
                    if keep && u == before[i as int]@ {
                        assert(kept@[kb.len() as int]@ == u);
                        assert(next[i as int] == before[i as int]);
                    }
                    if !keep && u == before[i as int]@ {
                        assert(u == token@);
                    }
                }
            }
            i = i + 1;
        }
        assert(before.take(before.len() as int) == before);
        self.tokens = kept;
        assert(self@ =~= token_set(before).remove(token@));
    }
}

/// The 16 big-endian bytes of a 128-bit value.
pub open spec fn be_bytes(x: u128) -> Seq<u8> {
    Seq::new(16, |i: int| ((x >> ((15 - i) * 8) as u128) & 0xff) as u8)
}

fn be_bytes_exec(x: u128) -> (b: Vec<u8>)
    ensures
        b@ == be_bytes(x),
{
    let mut b: Vec<u8> = Vec::new();
    let mut i: u32 = 0;
    while i < 16
        invariant
            i <= 16,
            b@.len() == i,
            forall|k: int| 0 <= k < i ==> b@[k] == ((x >> ((15 - k) * 8) as u128) & 0xff) as u8,
        decreases 16 - i,
    {
        let shift: u128 = ((15 - i) * 8) as u128;
        b.push(((x >> shift) & 0xff) as u8);
        i = i + 1;
    }
    assert(b@ =~= be_bytes(x));
    b
}

/// `t` spells two version-4 UUIDs in their simple form, one after the
/// other.
pub open spec fn from_two_uuids(t: Seq<char>) -> bool {
    exists|a: u128, b: u128|
        is_v4_uuid(a) && is_v4_uuid(b) && t == hex_chars(be_bytes(a)) + hex_chars(be_bytes(b))
}

/// 64 lower-case hex digits.
pub open spec fn token_shape(t: Seq<char>) -> bool {
    t.len() == 64 && forall|i: int| 0 <= i < t.len() ==> is_hex_ascii(#[trigger] t[i])
}

/// A session token: the simple (32 lower-case hex digit) form of two
/// random UUIDs, one after the other.
pub fn new_session_token() -> (t: String)
    ensures
        from_two_uuids(t@),
        token_shape(t@),
{
    let a = random_uuid();
    let b = random_uuid();
    let mut t = encode_hex(be_bytes_exec(a).as_slice());
    let h = encode_hex(be_bytes_exec(b).as_slice());
    push_str(&mut t, h.as_str());
    proof {
        let x = hex_chars(be_bytes(a));
        let y = hex_chars(be_bytes(b));
        lemma_hex_chars_len(be_bytes(a));
        lemma_hex_chars_len(be_bytes(b));
        lemma_hex_chars_ascii(be_bytes(a));
        lemma_hex_chars_ascii(be_bytes(b));
        assert(t@ == x + y);
        assert forall|i: int| 0 <= i < t@.len() implies is_hex_ascii(#[trigger] t@[i]) by {
            if i < x.len() {
                assert(t@[i] == x[i]);
            } else {
                assert(t@[i] == y[i - x.len()]);
            }
        }
    }
    t
}

/// `flock_session=<token>; HttpOnly; Path=/; SameSite=Strict`.
pub fn session_cookie(token: &str) -> (c: String)
    ensures
        c@ == "flock_session="@ + token@ + "; HttpOnly; Path=/; SameSite=Strict"@,
{
    let mut c = owned("flock_session=");
    push_str(&mut c, token);
    push_str(&mut c, "; HttpOnly; Path=/; SameSite=Strict");
    c
}

/// The cookie that clears the session: `flock_session=; Max-Age=0; Path=/`.
pub fn logout_cookie() -> (c: String)
    ensures
        c@ == "flock_session=; Max-Age=0; Path=/"@,
{
    owned("flock_session=; Max-Age=0; Path=/")
}

/// Seconds shown in the lockout message: whole seconds remaining, plus one.
pub open spec fn lockout_message(remaining_nanos: u64) -> Seq<char> {
    "too many failed attempts - try again in "@ + decimal(
        (remaining_nanos / 1_000_000_000 + 1) as nat,
    ) + "s"@
}

/// The body of a login request.
#[derive(Clone, Debug, Default)]
pub struct LoginRequest {
    pub password: String,
}

/// The outcome of a login attempt at `now`.
pub open spec fn login_result(g: LoginGuardView, admin: Option<Seq<char>>, password: Seq<char>, now: u64) -> Result<(), u16> {
    match admin {
        None => Err(400),
        Some(a) => if locked_at(g, now) is Some {
            Err(429)
        } else if password != a {
            Err(401)
        } else {
            Ok(())
        },
    }
}

/// The guard after a login attempt at `now`: cleared by success, one more
/// failure for a wrong password, unchanged when the attempt was refused
/// before the password was looked at.
pub open spec fn guard_after_login(g: LoginGuardView, admin: Option<Seq<char>>, password: Seq<char>, now: u64) -> LoginGuardView {
    match login_result(g, admin, password, now) {
        Ok(()) => fresh_guard(),
        Err(code) => if code == 401 {
            after_failure(g, now)
        } else {
            g
        },
    }
}

/// Checks a login attempt at `now`: with no admin password there is
/// nothing to log into (400); during a lockout the attempt is refused
/// (429) without being counted; a wrong password is counted (401); the
/// right one clears the count.
pub fn check_login(guard: &mut LoginGuard, admin_password: &Option<String>, request: &LoginRequest, now: u64) -> (r: Result<(), ApiError>)
    ensures
        match r {
            Ok(()) => login_result(old(guard)@, crate::device::opt_view(*admin_password), request.password@, now) == Ok::<(), u16>(()),
            Err(e) => login_result(old(guard)@, crate::device::opt_view(*admin_password), request.password@, now) == Err::<(), u16>(crate::error::status_of(e)),
        },
        match admin_password {
            None => r matches Err(ApiError::BadRequest(m)) && m@ == "this flock instance has no admin_password configured - nothing to log into"@,
            Some(_) => true,
        },
        r matches Err(ApiError::TooManyRequests(m)) ==> m@ == lockout_message(locked_at(old(guard)@, now)->0),
        r matches Err(ApiError::Unauthorized(m)) ==> m@ == "incorrect password"@,
        final(guard)@ == guard_after_login(old(guard)@, crate::device::opt_view(*admin_password), request.password@, now),
        match r {
            Ok(()) => final(guard)@ == fresh_guard(),
            Err(ApiError::Unauthorized(_)) => final(guard)@ == after_failure(old(guard)@, now),
            Err(_) => final(guard)@ == old(guard)@,
        },
{
    let admin = match admin_password {
        None => {
            return Err(ApiError::BadRequest(owned("this flock instance has no admin_password configured - nothing to log into")));
        },
        Some(a) => a,
    };
    if let Some(remaining) = guard.check_locked_at(now) {
        let mut m = owned("too many failed attempts - try again in ");
        let secs = decimal_string(remaining / 1_000_000_000 + 1);
        push_str(&mut m, secs.as_str());
        push_char(&mut m, 's');
        proof {
            reveal_strlit("s");
            assert(m@ =~= lockout_message(remaining));
        }
        return Err(ApiError::TooManyRequests(m));
    }
    if !constant_time_eq(request.password.as_str(), admin.as_str()) {
        guard.record_failure_at(now);
        return Err(ApiError::Unauthorized(owned("incorrect password")));
    }
    guard.record_success();
    Ok(())
}

/// The guard after `n` wrong passwords from a fresh guard, the `k`-th at
/// time `t[k]`.
pub open spec fn after_wrong(n: nat, admin: Seq<char>, wrong: Seq<char>, t: Seq<u64>) -> LoginGuardView
    decreases n,
{
    if n == 0 {
        fresh_guard()
    } else {
        guard_after_login(after_wrong((n - 1) as nat, admin, wrong, t), Some(admin), wrong, t[n - 1])
    }
}

proof fn lemma_after_wrong_below(n: nat, admin: Seq<char>, wrong: Seq<char>, t: Seq<u64>)
    requires
        wrong != admin,
        n < MAX_FAILURES,
        t.len() >= n,
    ensures
        after_wrong(n, admin, wrong, t) == (LoginGuardView { failures: n as u32, locked_until: None }),
    decreases n,
{
    if n > 0 {
        lemma_after_wrong_below((n - 1) as nat, admin, wrong, t);
    }
}

/// With an admin password set, five wrong passwords in a row from a fresh
/// guard are each refused as unauthorized (401), and any attempt less than
/// thirty seconds after the fifth, right password or not, is refused as too
/// many (429). The guard's clock saturates at its last value, which no
/// lockout outlasts, so the sixth attempt is before that value.
pub proof fn lemma_five_wrong_then_locked(admin: Seq<char>, wrong: Seq<char>, any: Seq<char>, t: Seq<u64>)
    requires
        wrong != admin,
        t.len() == 6,
        t[4] <= t[5] < t[4] + LOCKOUT_NANOS,
        t[5] < u64::MAX,
    ensures
        forall|k: int| 0 <= k < 5 ==> login_result(#[trigger] after_wrong(k as nat, admin, wrong, t), Some(admin), wrong, t[k]) == Err::<(), u16>(401),
        login_result(after_wrong(5, admin, wrong, t), Some(admin), any, t[5]) == Err::<(), u16>(429),
{
    assert forall|k: int| 0 <= k < 5 implies login_result(#[trigger] after_wrong(k as nat, admin, wrong, t), Some(admin), wrong, t[k]) == Err::<(), u16>(401) by {
        lemma_after_wrong_below(k as nat, admin, wrong, t);
    }
    lemma_after_wrong_below(4, admin, wrong, t);
    let g5 = after_wrong(5, admin, wrong, t);
    assert(g5 == after_failure(after_wrong(4, admin, wrong, t), t[4]));
    assert(g5.failures == MAX_FAILURES);
    assert(g5.locked_until is Some && t[5] < g5.locked_until->0);
}

/// Whether a request is let through: always with no admin password,
/// otherwise only with a valid session token.
pub fn is_authorized(admin_password: &Option<String>, token: &Option<String>, sessions: &SessionStore) -> (r: bool)
    ensures
        r == (admin_password is None || (token matches Some(t) && sessions@.contains(t@))),
{
    if admin_password.is_none() {
        return true;
    }
    match token {
        Some(t) => sessions.contains(t.as_str()),
        None => false,
    }
}

/// Opens a session after a successful login: a fresh token is stored and
/// the `Set-Cookie` value carrying it is returned.
pub fn open_session(sessions: &mut SessionStore) -> (cookie: String)
    ensures
        exists|t: Seq<char>|
            final(sessions)@ == old(sessions)@.insert(t) && cookie@ == "flock_session="@ + t
                + "; HttpOnly; Path=/; SameSite=Strict"@ && from_two_uuids(t) && token_shape(t),
{
    let token = new_session_token();
    let cookie = session_cookie(token.as_str());
    let ghost t = token@;
    sessions.insert(token);
    cookie
}

/// Logging out ends the session the request carries, if any.
pub fn close_session(sessions: &mut SessionStore, token: &Option<String>)
    ensures
        match token {
            Some(t) => final(sessions)@ == old(sessions)@.remove(t@),
            None => final(sessions)@ == old(sessions)@,
        },
{
    if let Some(t) = token {
        sessions.remove(t.as_str());
    }
}

/// With an admin password set, a token is let through once its session is
/// opened and no longer once it is closed.
pub proof fn lemma_session_lifecycle(s: Set<Seq<char>>, t: Seq<char>)
    ensures
        s.insert(t).contains(t),
        !s.insert(t).remove(t).contains(t),
        !s.remove(t).contains(t),
{
}

} // verus!
