use vstd::prelude::*;
use vstd::string::*;
use crate::clock::now_micros;
use crate::crypt::{bcrypt_hash, bcrypt_verdict, bcrypt_verify};
use crate::ledger::Ledger;
use crate::text::{decimal, push_decimal};

verus! {

/// What a bearer token says of its holder.
#[derive(Debug)]
pub struct Claims {
    /// The identifier of the user.
    pub sub: String,
    /// When the token expires, in seconds since the Unix epoch.
    pub exp: usize,
    pub id: String,
    pub username: String,
    pub role: String,
}

/// Mathematical value of [`Claims`].
pub struct ClaimsView {
    pub sub: Seq<char>,
    pub exp: usize,
    pub id: Seq<char>,
    pub username: Seq<char>,
    pub role: Seq<char>,
}

impl View for Claims {
    type V = ClaimsView;

    open spec fn view(&self) -> ClaimsView {
        ClaimsView {
            sub: self.sub@,
            exp: self.exp,
            id: self.id@,
            username: self.username@,
            role: self.role@,
        }
    }
}

impl Clone for Claims {
    fn clone(&self) -> (out: Claims)
        ensures
            out@ == self@,
    {
        Claims {
            sub: self.sub.clone(),
            exp: self.exp,
            id: self.id.clone(),
            username: self.username.clone(),
            role: self.role.clone(),
        }
    }
}

/// How long a token is good for, in seconds: 24 hours.
pub const TOKEN_SECONDS: usize = 86_400;

impl Claims {
    /// The claims of a token that is issued to a user at the time `now`,
    /// in seconds since the Unix epoch: it expires 24 hours later, or at the
    /// end of time where that cannot be counted.
    pub fn issue(user_id: &str, username: &str, role: &str, now: usize) -> (c: Claims)
        ensures
            c@ == (ClaimsView {
                sub: user_id@,
                exp: if now + TOKEN_SECONDS <= usize::MAX {
                    (now + TOKEN_SECONDS) as usize
                } else {
                    usize::MAX
                },
                id: user_id@,
                username: username@,
                role: role@,
            }),
    {
        let exp = if now <= usize::MAX - TOKEN_SECONDS {
            now + TOKEN_SECONDS
        } else {
            usize::MAX
        };
        Claims {
            sub: user_id.to_owned(),
            exp,
            id: user_id.to_owned(),
            username: username.to_owned(),
            role: role.to_owned(),
        }
    }
}

/// The failed logins of one user name: how many there were since the last
/// reset, and when the last one was, in microseconds since the Unix epoch.
#[derive(Clone, Copy, Debug)]
pub struct LoginAttempt {
    pub count: i32,
    pub last_attempt: i64,
}

/// Failed logins after which a user name is locked.
pub const MAX_ATTEMPTS: i32 = 5;

/// How long a user name stays locked, in microseconds: 15 minutes.
pub const LOCK_MICROS: i64 = 900_000_000;

/// One minute in microseconds.
pub const MINUTE_MICROS: i64 = 60_000_000;

/// How long a token stays on the blacklist, in microseconds: 24 hours.
pub const BLACKLIST_MICROS: i64 = 86_400_000_000;

/// The cost that passwords are hashed with.
pub const HASH_COST: u32 = 12;

/// Whether a user name with the record `attempt` is locked at the time `now`.
pub open spec fn is_locked(attempt: LoginAttempt, now: i64) -> bool {
    attempt.count >= MAX_ATTEMPTS && now - attempt.last_attempt < LOCK_MICROS
}

/// The whole minutes that a locked user name has still to wait at the time
/// `now`.
pub open spec fn minutes_left(attempt: LoginAttempt, now: i64) -> int {
    (LOCK_MICROS - (now - attempt.last_attempt)) / (MINUTE_MICROS as int)
}

/// The record after a login was asked for at the time `now`: a lock that
/// has run out resets the count.
pub open spec fn after_check(attempt: LoginAttempt, now: i64) -> LoginAttempt {
    if attempt.count >= MAX_ATTEMPTS && !is_locked(attempt, now) {
        LoginAttempt { count: 0, ..attempt }
    } else {
        attempt
    }
}

/// The record after a login failed at the time `now`. The count stops at
/// the largest number that it can hold.
pub open spec fn after_failure(attempt: LoginAttempt, now: i64) -> LoginAttempt {
    LoginAttempt {
        count: if attempt.count < i32::MAX {
            (attempt.count + 1) as i32
        } else {
            attempt.count
        },
        last_attempt: now,
    }
}

impl LoginAttempt {
    /// Decides at the time `now` whether a login may be tried: not while
    /// the user name is locked, in which case the minutes left to wait are
    /// returned.
    pub fn check(&mut self, now: i64) -> (r: Result<(), u64>)
        ensures
            *final(self) == after_check(*old(self), now),
            r is Err <==> is_locked(*old(self), now),
            r is Err ==> r->Err_0 == minutes_left(*old(self), now),
    {
        if self.count >= MAX_ATTEMPTS {
            let elapsed: i128 = now as i128 - self.last_attempt as i128;
            if elapsed < LOCK_MICROS as i128 {
                let left: i128 = LOCK_MICROS as i128 - elapsed;
                let minutes: i128 = left / (MINUTE_MICROS as i128);
                assert(0 <= minutes <= 0xffff_ffff_ffff_ffff) by (nonlinear_arith)
                    requires
                        0 < left <= 900_000_000 + 0x1_0000_0000_0000_0000,
                        minutes == left / 60_000_000,
                ;
                return Err(minutes as u64);
            }
            self.count = 0;
        }
        Ok(())
    }

    /// Records at the time `now` that a login failed.
    pub fn record_failure(&mut self, now: i64)
        ensures
            *final(self) == after_failure(*old(self), now),
    {
        if self.count < i32::MAX {
            self.count = self.count + 1;
        }
        self.last_attempt = now;
    }
}

/// The record of `username`, or that of a user name first seen at `now`.
pub open spec fn record_of(
    attempts: Map<Seq<char>, LoginAttempt>,
    username: Seq<char>,
    now: i64,
) -> LoginAttempt {
    if attempts.contains_key(username) {
        attempts[username]
    } else {
        LoginAttempt { count: 0, last_attempt: now }
    }
}

/// The message for a user name that is locked for `minutes` more minutes.
pub open spec fn locked_message(minutes: nat) -> Seq<char> {
    "登录尝试次数过多，请等待 "@ + decimal(minutes) + " 分钟后再试"@
}

/// Whether `r` and the records `after` are what asking at the time `now`
/// for a login of `username` gives.
pub open spec fn login_check_agrees(
    before: Map<Seq<char>, LoginAttempt>,
    after: Map<Seq<char>, LoginAttempt>,
    username: Seq<char>,
    now: i64,
    r: Result<(), String>,
) -> bool {
    let record = record_of(before, username, now);
    &&& after == before.insert(username, after_check(record, now))
    &&& r is Err <==> is_locked(record, now)
    &&& r is Err ==> r->Err_0@ == locked_message(minutes_left(record, now) as nat)
}

/// Whether a token that was put on the blacklist at `listed_at` may be
/// forgotten at the time `now`: after 24 hours.
pub open spec fn is_stale(listed_at: i64, now: i64) -> bool {
    now - listed_at > BLACKLIST_MICROS
}

/// Whether `after` is `before` without the tokens that are stale at the
/// time `now`: those that were put on the blacklist more than 24 hours
/// before. The tokens that stay keep the time they were listed at.
pub open spec fn blacklist_swept(
    before: Map<Seq<char>, i64>,
    after: Map<Seq<char>, i64>,
    now: i64,
) -> bool {
    &&& forall|token: Seq<char>| #[trigger]
        after.contains_key(token) <==> before.contains_key(token) && !is_stale(before[token], now)
    &&& forall|token: Seq<char>| #[trigger]
        after.contains_key(token) ==> after[token] == before[token]
}

/// What is handed to the caller for what bcrypt gave when it was asked for a
/// hash: the hash as it is, or the text of the failure behind a few words on
/// what failed.
pub open spec fn hash_report_spec(outcome: Result<Seq<char>, Seq<char>>) -> Result<
    Seq<char>,
    Seq<char>,
> {
    match outcome {
        Ok(hashed) => Ok(hashed),
        Err(why) => Err("密码加密失败: "@ + why),
    }
}

/// The characters of a result that holds texts.
pub open spec fn text_result(r: Result<String, String>) -> Result<Seq<char>, Seq<char>> {
    match r {
        Ok(text) => Ok(text@),
        Err(text) => Err(text@),
    }
}

/// What verifying a password against a stored hash gives.
pub open spec fn verify_password_spec(password: Seq<char>, hash: Seq<char>) -> Result<
    bool,
    Seq<char>,
> {
    match bcrypt_verdict(password, hash) {
        Ok(same) => Ok(same),
        Err(why) => Err("密码验证失败: "@ + why),
    }
}

/// Keeps the failed logins of each user name and the tokens that were
/// logged out.
pub struct AuthManager {
    login_attempts: Ledger<LoginAttempt>,
    token_blacklist: Ledger<i64>,
}

impl AuthManager {
    /// The record of each user name that was seen.
    pub closed spec fn attempts(&self) -> Map<Seq<char>, LoginAttempt> {
        self.login_attempts.entries()
    }

    /// The tokens on the blacklist, each with the time it was put there.
    pub closed spec fn blacklist(&self) -> Map<Seq<char>, i64> {
        self.token_blacklist.entries()
    }

    /// What the manager holds of itself between calls.
    pub closed spec fn wf(&self) -> bool {
        self.login_attempts.wf() && self.token_blacklist.wf()
    }

    /// A manager that has seen no user name and no token.
    pub fn new() -> (m: Self)
        ensures
            m.wf(),
            m.attempts() == Map::<Seq<char>, LoginAttempt>::empty(),
            m.blacklist() == Map::<Seq<char>, i64>::empty(),
    {
        AuthManager { login_attempts: Ledger::new(), token_blacklist: Ledger::new() }
    }

    /// The record of `username`, or that of a user name first seen at `now`.
    fn record(&self, username: &str, now: i64) -> (a: LoginAttempt)
        requires
            self.wf(),
        ensures
            a == record_of(self.attempts(), username@, now),
    {
        match self.login_attempts.find(username) {
            Some(i) => *self.login_attempts.value(i),
            None => LoginAttempt { count: 0, last_attempt: now },
        }
    }

    /// Decides at the time `now` whether `username` may try to log in: not
    /// while it is locked. A user name that was not seen before gets a
    /// record.
    pub fn check_login_attempts_at(&mut self, username: &str, now: i64) -> (r: Result<(), String>)
        requires
            old(self).wf(),
        ensures
            final(self).wf(),
            final(self).blacklist() == old(self).blacklist(),
            login_check_agrees(old(self).attempts(), final(self).attempts(), username@, now, r),
    {
        let mut attempt = self.record(username, now);
        let verdict = attempt.check(now);
        self.login_attempts.put(username, attempt);
        match verdict {
            Ok(_) => Ok(()),
            Err(minutes) => {
                let mut message = "登录尝试次数过多，请等待 ".to_owned();
                push_decimal(&mut message, minutes);
                message.append(" 分钟后再试");
                Err(message)
            },
        }
    }

    /// Decides whether `username` may try to log in now.
    pub fn check_login_attempts(&mut self, username: &str) -> (r: Result<(), String>)
        requires
            old(self).wf(),
        ensures
            final(self).wf(),
            final(self).blacklist() == old(self).blacklist(),
            exists|now: i64| #[trigger]
                login_check_agrees(old(self).attempts(), final(self).attempts(), username@, now, r),
    {
        let now = now_micros();
        let r = self.check_login_attempts_at(username, now);
        assert(login_check_agrees(old(self).attempts(), self.attempts(), username@, now, r));
        r
    }

    /// Records at the time `now` that a login of `username` failed.
    pub fn record_failed_attempt_at(&mut self, username: &str, now: i64)
        requires
            old(self).wf(),
        ensures
            final(self).wf(),
            final(self).blacklist() == old(self).blacklist(),
            final(self).attempts() == old(self).attempts().insert(
                username@,
                after_failure(record_of(old(self).attempts(), username@, now), now),
            ),
    {
        let mut attempt = self.record(username, now);
        attempt.record_failure(now);
        self.login_attempts.put(username, attempt);
    }

    /// Records that a login of `username` failed now.
    pub fn record_failed_attempt(&mut self, username: &str)
        requires
            old(self).wf(),
        ensures
            final(self).wf(),
            final(self).blacklist() == old(self).blacklist(),
            exists|now: i64|
                final(self).attempts() == old(self).attempts().insert(
                    username@,
                    #[trigger] after_failure(record_of(old(self).attempts(), username@, now), now),
                ),
    {
        let now = now_micros();
        self.record_failed_attempt_at(username, now);
        assert(self.attempts() == old(self).attempts().insert(
            username@,
            after_failure(record_of(old(self).attempts(), username@, now), now),
        ));
    }

    /// Forgets the failed logins of `username`, if it was seen.
    pub fn reset_login_attempts(&mut self, username: &str)
        requires
            old(self).wf(),
        ensures
            final(self).wf(),
            final(self).blacklist() == old(self).blacklist(),
            old(self).attempts().contains_key(username@) ==> final(self).attempts() == old(
                self,
            ).attempts().insert(
                username@,
                LoginAttempt { count: 0, ..old(self).attempts()[username@] },
            ),
            !old(self).attempts().contains_key(username@) ==> final(self).attempts() == old(
                self,
            ).attempts(),
    {
        match self.login_attempts.find(username) {
            Some(i) => {
                let mut attempt = *self.login_attempts.value(i);
                attempt.count = 0;
                self.login_attempts.put(username, attempt);
            },
            None => {},
        }
    }

    /// Puts `token` on the blacklist at the time `now`.
    pub fn blacklist_token_at(&mut self, token: &str, now: i64)
        requires
            old(self).wf(),
        ensures
            final(self).wf(),
            final(self).attempts() == old(self).attempts(),
            final(self).blacklist() == old(self).blacklist().insert(token@, now),
    {
        self.token_blacklist.put(token, now);
    }

    /// Puts `token` on the blacklist now.
    pub fn blacklist_token(&mut self, token: &str)
        requires
            old(self).wf(),
        ensures
            final(self).wf(),
            final(self).attempts() == old(self).attempts(),
            exists|now: i64| final(self).blacklist() == #[trigger] old(self).blacklist().insert(
                token@,
                now,
            ),
    {
        let now = now_micros();
        self.blacklist_token_at(token, now);
        assert(self.blacklist() == old(self).blacklist().insert(token@, now));
    }

    /// Whether `token` was logged out.
    pub fn is_token_blacklisted(&self, token: &str) -> (r: bool)
        requires
            self.wf(),
        ensures
            r == self.blacklist().contains_key(token@),
    {
        self.token_blacklist.find(token).is_some()
    }

    /// Forgets at the time `now` the tokens that were put on the blacklist
    /// more than 24 hours before, and returns how many they were.
    pub fn cleanup_expired_tokens_at(&mut self, now: i64) -> (dropped: usize)
        requires
            old(self).wf(),
        ensures
            final(self).wf(),
            final(self).attempts() == old(self).attempts(),
            blacklist_swept(old(self).blacklist(), final(self).blacklist(), now),
    {
        let n = self.token_blacklist.len();
        let mut keep: Vec<bool> = Vec::new();
        let mut dropped: usize = 0;
        let mut i: usize = 0;
        while i < n
            invariant
                self.wf(),
                n == self.token_blacklist.count(),
                i <= n,
                dropped <= i,
                keep@.len() == i,
                forall|k: int|
                    0 <= k < i ==> keep@[k] == !is_stale(self.token_blacklist.value_at(k), now),
            decreases n - i,
        {
            let listed = *self.token_blacklist.value(i);
            let stale = now as i128 - listed as i128 > BLACKLIST_MICROS as i128;
            if stale {
                dropped += 1;
            }
            keep.push(!stale);
            i += 1;
        }
        self.token_blacklist.keep_marked(&keep);
        proof {
            let before = old(self).token_blacklist;
            assert forall|token: Seq<char>| #[trigger]
                self.blacklist().contains_key(token) <==> old(self).blacklist().contains_key(token)
                    && !is_stale(old(self).blacklist()[token], now) by {
                if old(self).blacklist().contains_key(token) {
                    let j = before.lemma_key(token);
                    assert(self.token_blacklist.entries().contains_key(before.key_at(j))
                        <==> keep@[j]);
                }
            }
        }
        dropped
    }

    /// Forgets the tokens that were put on the blacklist more than 24 hours
    /// ago: exactly those that are stale at the time that the clock shows.
    pub fn cleanup_expired_tokens(&mut self)
        requires
            old(self).wf(),
        ensures
            final(self).wf(),
            final(self).attempts() == old(self).attempts(),
            exists|now: i64| #[trigger]
                blacklist_swept(old(self).blacklist(), final(self).blacklist(), now),
    {
        let now = now_micros();
        self.cleanup_expired_tokens_at(now);
        assert(blacklist_swept(old(self).blacklist(), self.blacklist(), now));
    }

    /// Hashes a password for storing it. Two calls give different hashes.
    pub fn hash_password(password: &str) -> (r: Result<String, String>)
        ensures
            r is Err ==> "密码加密失败: "@.is_prefix_of(r->Err_0@),
    {
        let outcome = bcrypt_hash(password, HASH_COST);
        let ghost given = text_result(outcome);
        let r = Self::hash_report(outcome);
        proof {
            if r is Err {
                let lead = "密码加密失败: "@;
                assert((lead + given->Err_0).subrange(0, lead.len() as int) =~= lead);
            }
        }
        r
    }

    /// What is handed to the caller for what bcrypt gave when it was asked
    /// for a hash.
    pub fn hash_report(outcome: Result<String, String>) -> (r: Result<String, String>)
        ensures
            text_result(r) == hash_report_spec(text_result(outcome)),
    {
        match outcome {
            Ok(hashed) => Ok(hashed),
            Err(why) => {
                let mut message = "密码加密失败: ".to_owned();
                message.append(why.as_str());
                assert(message@ == "密码加密失败: "@ + why@);
                Err(message)
            },
        }
    }

    /// Tells whether `password` is the one that `hash` was made from.
    pub fn verify_password(password: &str, hash: &str) -> (r: Result<bool, String>)
        ensures
            match r {
                Ok(same) => verify_password_spec(password@, hash@) == Ok::<bool, Seq<char>>(same),
                Err(why) => verify_password_spec(password@, hash@) == Err::<bool, Seq<char>>(why@),
            },
    {
        match bcrypt_verify(password, hash) {
            Ok(same) => Ok(same),
            Err(why) => {
                let mut message = "密码验证失败: ".to_owned();
                message.append(why.as_str());
                Err(message)
            },
        }
    }
}

} // verus!
