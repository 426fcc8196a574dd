use vstd::prelude::*;
use crate::clock::now_micros;
use crate::crypt::random_below;
use crate::ledger::Ledger;
use crate::text::digit;

verus! {

/// A captcha that was handed out: its code, when it was made, in
/// microseconds since the Unix epoch, and how often it was tried.
#[derive(Debug)]
pub struct Captcha {
    pub code: String,
    pub created_at: i64,
    pub attempts: i32,
}

/// Mathematical value of a [`Captcha`].
pub struct CaptchaView {
    pub code: Seq<char>,
    pub created_at: i64,
    pub attempts: i32,
}

impl View for Captcha {
    type V = CaptchaView;

    open spec fn view(&self) -> CaptchaView {
        CaptchaView { code: self.code@, created_at: self.created_at, attempts: self.attempts }
    }
}

impl Clone for Captcha {
    fn clone(&self) -> (out: Captcha)
        ensures
            out@ == self@,
    {
        Captcha { code: self.code.clone(), created_at: self.created_at, attempts: self.attempts }
    }
}

/// Characters of a captcha code.
pub const CODE_LENGTH: usize = 6;

/// Tries that a captcha allows.
pub const MAX_TRIES: i32 = 3;

/// The age from which a captcha has expired, in microseconds: the first
/// whole second beyond five minutes.
pub const EXPIRY_MICROS: i64 = 301_000_000;

/// Whether `c` may stand in a captcha code: a digit or a capital letter of
/// the Latin alphabet.
pub open spec fn is_code_char(c: char) -> bool {
    ('0' <= c && c <= '9') || ('A' <= c && c <= 'Z')
}

/// Whether a captcha made at `created_at` has expired at the time `now`:
/// more than 300 whole seconds have passed.
pub open spec fn has_expired(created_at: i64, now: i64) -> bool {
    now - created_at >= EXPIRY_MICROS
}

/// Whether the try of `code` on the captcha at the time `now` is accepted:
/// the captcha has neither expired nor been tried three times, and the code
/// is right.
pub open spec fn accepts(captcha: CaptchaView, code: Seq<char>, now: i64) -> bool {
    !has_expired(captcha.created_at, now) && captcha.attempts < MAX_TRIES && captcha.code == code
}

/// The captcha after a try at the time `now`: none where it has expired or
/// has been tried three times; else it stays, with one more try counted,
/// also after the right code.
pub open spec fn after_try(captcha: CaptchaView, now: i64) -> Option<CaptchaView> {
    if has_expired(captcha.created_at, now) || captcha.attempts >= MAX_TRIES {
        None
    } else {
        Some(CaptchaView { attempts: (captcha.attempts + 1) as i32, ..captcha })
    }
}

/// Whether `r` and the captchas `after` are what the try of `code` for the
/// session `session` at the time `now` gives: a session without a captcha
/// is refused and nothing changes; else the try is accepted or not as the
/// captcha says, which is dropped or stays with the try counted.
pub open spec fn try_agrees(
    before: Map<Seq<char>, CaptchaView>,
    after: Map<Seq<char>, CaptchaView>,
    session: Seq<char>,
    code: Seq<char>,
    now: i64,
    r: bool,
) -> bool {
    if before.contains_key(session) {
        &&& r == accepts(before[session], code, now)
        &&& after == (match after_try(before[session], now) {
            Some(captcha) => before.insert(session, captcha),
            None => before.remove(session),
        })
    } else {
        !r && after == before
    }
}

/// Whether `after` is `before` without the captchas that have expired at
/// the time `now`. The captchas that stay are as they were.
pub open spec fn captchas_swept(
    before: Map<Seq<char>, CaptchaView>,
    after: Map<Seq<char>, CaptchaView>,
    now: i64,
) -> bool {
    &&& forall|session: Seq<char>| #[trigger]
        after.contains_key(session) <==> before.contains_key(session) && !has_expired(
            before[session].created_at,
            now,
        )
    &&& forall|session: Seq<char>| #[trigger]
        after.contains_key(session) ==> after[session] == before[session]
}

/// The values of the captchas of each session.
pub open spec fn captcha_views(held: Map<Seq<char>, Captcha>) -> Map<Seq<char>, CaptchaView> {
    held.map_values(|c: Captcha| c@)
}

/// Hands out captchas and checks the codes that come back, by session.
pub struct CaptchaManager {
    captchas: Ledger<Captcha>,
}

impl CaptchaManager {
    /// The captcha of each session that holds one.
    pub closed spec fn held(&self) -> Map<Seq<char>, CaptchaView> {
        captcha_views(self.captchas.entries())
    }

    /// What the manager holds of itself between calls.
    pub closed spec fn wf(&self) -> bool {
        self.captchas.wf()
    }

    /// A manager that holds no captcha.
    pub fn new() -> (m: Self)
        ensures
            m.wf(),
            m.held() == Map::<Seq<char>, CaptchaView>::empty(),
    {
        let m = CaptchaManager { captchas: Ledger::new() };
        assert(m.held() =~= Map::<Seq<char>, CaptchaView>::empty());
        m
    }

    /// A new code: six characters, each a digit or a capital letter, drawn
    /// at random.
    pub fn generate_captcha() -> (code: String)
        ensures
            code@.len() == CODE_LENGTH,
            forall|i: int| 0 <= i < code@.len() ==> is_code_char(#[trigger] code@[i]),
    {
        let mut code = String::new();
        let mut i: usize = 0;
        while i < CODE_LENGTH
            invariant
                i <= CODE_LENGTH,
                code@.len() == i,
                forall|k: int| 0 <= k < code@.len() ==> is_code_char(#[trigger] code@[k]),
            decreases CODE_LENGTH - i,
        {
            let c = if random_below(2) == 0 {
                let d = random_below(10);
                digit(d as u64)
            } else {
                let k = random_below(26);
                ((65 + k) as u8) as char
            };
            code.push(c);
            i += 1;
        }
        code
    }

    /// Hands the session `session_id` a captcha with the code `code`, made
    /// at the time `now` and not tried yet, in place of the one it had.
    pub fn store_captcha_at(&mut self, session_id: &str, code: &str, now: i64)
        requires
            old(self).wf(),
        ensures
            final(self).wf(),
            final(self).held() == old(self).held().insert(
                session_id@,
                CaptchaView { code: code@, created_at: now, attempts: 0 },
            ),
    {
        let captcha = Captcha { code: code.to_owned(), created_at: now, attempts: 0 };
        self.captchas.put(session_id, captcha);
        assert(self.held() =~= old(self).held().insert(session_id@, captcha@));
    }

    /// Decides at the time `now` on the try of `code` for the session
    /// `session_id`. A session without a captcha is refused; a captcha that
    /// has expired or has been tried three times is refused and dropped; any
    /// other try is counted.
    pub fn verify_captcha_at(&mut self, session_id: &str, code: &str, now: i64) -> (r: bool)
        requires
            old(self).wf(),
        ensures
            final(self).wf(),
            try_agrees(old(self).held(), final(self).held(), session_id@, code@, now, r),
    {
        let at = match self.captchas.find(session_id) {
            Some(i) => i,
            None => { return false; },
        };
        let mut captcha = self.captchas.value(at).clone();
        let age: i128 = now as i128 - captcha.created_at as i128;
        if age >= EXPIRY_MICROS as i128 || captcha.attempts >= MAX_TRIES {
            self.captchas.remove(session_id);
            assert(self.held() =~= old(self).held().remove(session_id@));
            return false;
        }
        captcha.attempts = captcha.attempts + 1;
        let wanted = code.to_owned();
        let right = captcha.code == wanted;
        let ghost counted = captcha@;
        self.captchas.put(session_id, captcha);
        assert(self.held() =~= old(self).held().insert(session_id@, counted));
        right
    }

    /// Decides on the try of `code` for the session `session_id`, at the
    /// time that the clock shows. A session without a captcha is refused; a
    /// captcha that has expired or has been tried three times is refused and
    /// dropped; any other try is counted, and accepted where the code is
    /// right.
    pub fn verify_captcha(&mut self, session_id: &str, code: &str) -> (r: bool)
        requires
            old(self).wf(),
        ensures
            final(self).wf(),
            exists|now: i64| #[trigger]
                try_agrees(old(self).held(), final(self).held(), session_id@, code@, now, r),
    {
        let now = now_micros();
        let r = self.verify_captcha_at(session_id, code, now);
        assert(try_agrees(old(self).held(), self.held(), session_id@, code@, now, r));
        r
    }

    /// Drops at the time `now` the captchas that have expired.
    pub fn cleanup_expired_captchas_at(&mut self, now: i64)
        requires
            old(self).wf(),
        ensures
            final(self).wf(),
            captchas_swept(old(self).held(), final(self).held(), now),
    {
        let n = self.captchas.len();
        let mut keep: Vec<bool> = Vec::new();
        let mut i: usize = 0;
        while i < n
            invariant
                self.wf(),
                n == self.captchas.count(),
                i <= n,
                keep@.len() == i,
                forall|k: int|
                    0 <= k < i ==> keep@[k] == !has_expired(
                        self.captchas.value_at(k).created_at,
                        now,
                    ),
            decreases n - i,
        {
            let made = self.captchas.value(i).created_at;
            let expired = now as i128 - made as i128 >= EXPIRY_MICROS as i128;
            keep.push(!expired);
            i += 1;
        }
        self.captchas.keep_marked(&keep);
        proof {
            let before = old(self).captchas;
            assert forall|session: Seq<char>| #[trigger]
                self.held().contains_key(session) <==> old(self).held().contains_key(session)
                    && !has_expired(old(self).held()[session].created_at, now) by {
                if old(self).held().contains_key(session) {
                    let j = before.lemma_key(session);
                    assert(self.captchas.entries().contains_key(before.key_at(j)) <==> keep@[j]);
                }
            }
        }
    }

    /// Drops the captchas that have expired: exactly those that are older
    /// than five minutes at the time that the clock shows.
    pub fn cleanup_expired_captchas(&mut self)
        requires
            old(self).wf(),
        ensures
            final(self).wf(),
            exists|now: i64| #[trigger]
                captchas_swept(old(self).held(), final(self).held(), now),
    {
        let now = now_micros();
        self.cleanup_expired_captchas_at(now);
        assert(captchas_swept(old(self).held(), self.held(), now));
    }
}

} // verus!
