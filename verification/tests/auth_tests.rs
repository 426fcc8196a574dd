use vfs_core::auth::{AuthManager, Claims, LoginAttempt};
use vfs_core::captcha::CaptchaManager;
use vfs_core::text::{from_chars, push_decimal, starts_with, to_chars};

const MINUTE: i64 = 60_000_000;

#[test]
fn claims_expire_a_day_after_issue() {
    let c = Claims::issue("u1", "alice", "user", 1_000);
    assert_eq!(c.sub, "u1");
    assert_eq!(c.id, "u1");
    assert_eq!(c.username, "alice");
    assert_eq!(c.role, "user");
    assert_eq!(c.exp, 87_400);
    assert_eq!(Claims::issue("u", "a", "r", usize::MAX - 5).exp, usize::MAX);
    let d = c.clone();
    assert_eq!(d.exp, c.exp);
    assert_eq!(d.username, c.username);
}

#[test]
fn attempt_record_locks_after_five_failures() {
    let mut a = LoginAttempt { count: 0, last_attempt: 0 };
    for i in 0..5 {
        assert_eq!(a.check(i), Ok(()));
        a.record_failure(i);
    }
    assert_eq!(a.count, 5);
    assert_eq!(a.last_attempt, 4);
    assert_eq!(a.check(4), Err(15));
    assert_eq!(a.check(4 + MINUTE), Err(14));
    assert_eq!(a.check(4 + 15 * MINUTE - 1), Err(0));
    assert_eq!(a.count, 5);
    assert_eq!(a.check(4 + 15 * MINUTE), Ok(()));
    assert_eq!(a.count, 0);
    let mut full = LoginAttempt { count: i32::MAX, last_attempt: 0 };
    full.record_failure(9);
    assert_eq!(full.count, i32::MAX);
    assert_eq!(full.last_attempt, 9);
    let mut far = LoginAttempt { count: 5, last_attempt: i64::MAX };
    assert_eq!(far.check(i64::MIN), Err(307_445_734_576));
}

#[test]
fn manager_throttles_by_user_name() {
    let mut m = AuthManager::new();
    assert!(m.check_login_attempts_at("bob", 0).is_ok());
    for t in 1..=5 {
        m.record_failed_attempt_at("bob", t);
    }
    assert_eq!(
        m.check_login_attempts_at("bob", 5 + 2 * MINUTE).unwrap_err(),
        "登录尝试次数过多，请等待 13 分钟后再试"
    );
    assert!(m.check_login_attempts_at("alice", 6).is_ok());
    m.reset_login_attempts("bob");
    assert!(m.check_login_attempts_at("bob", 7).is_ok());
    m.reset_login_attempts("nobody");
    for t in 1..=5 {
        m.record_failed_attempt_at("carol", t);
    }
    assert!(m.check_login_attempts_at("carol", 5 + 15 * MINUTE).is_ok());
    m.record_failed_attempt_at("carol", 5 + 15 * MINUTE);
    assert!(m.check_login_attempts_at("carol", 6 + 15 * MINUTE).is_ok());
}

#[test]
fn manager_reads_the_clock() {
    let mut m = AuthManager::new();
    assert!(m.check_login_attempts("bob").is_ok());
    for _ in 0..5 {
        m.record_failed_attempt("bob");
    }
    let wait = m.check_login_attempts("bob").unwrap_err();
    assert!(
        wait == "登录尝试次数过多，请等待 14 分钟后再试"
            || wait == "登录尝试次数过多，请等待 15 分钟后再试"
    );
    m.blacklist_token("tok");
    assert!(m.is_token_blacklisted("tok"));
    m.cleanup_expired_tokens();
    assert!(m.is_token_blacklisted("tok"));
}

#[test]
fn blacklist_forgets_after_a_day() {
    let day: i64 = 86_400_000_000;
    let mut m = AuthManager::new();
    assert!(!m.is_token_blacklisted("a"));
    m.blacklist_token_at("a", 0);
    m.blacklist_token_at("b", 10);
    m.blacklist_token_at("c", 20);
    assert!(m.is_token_blacklisted("a"));
    assert_eq!(m.cleanup_expired_tokens_at(day), 0);
    assert_eq!(m.cleanup_expired_tokens_at(day + 10), 1);
    assert!(!m.is_token_blacklisted("a"));
    assert!(m.is_token_blacklisted("b"));
    assert!(m.is_token_blacklisted("c"));
    m.blacklist_token_at("b", day);
    assert_eq!(m.cleanup_expired_tokens_at(day + 30), 1);
    assert!(m.is_token_blacklisted("b"));
    assert!(!m.is_token_blacklisted("c"));
}

#[test]
fn password_hash_round_trip() {
    let hashed = AuthManager::hash_password("secret1").unwrap();
    assert_ne!(hashed, "secret1");
    assert!(hashed.starts_with("$2"));
    assert_eq!(AuthManager::verify_password("secret1", &hashed), Ok(true));
    assert_eq!(AuthManager::verify_password("secret2", &hashed), Ok(false));
    assert_ne!(AuthManager::hash_password("secret1").unwrap(), hashed);
    match AuthManager::verify_password("secret1", "secret1") {
        Err(why) => assert!(why.starts_with("密码验证失败: ")),
        other => panic!("unexpected: {:?}", other),
    }
}

#[test]
fn captcha_codes_have_six_allowed_characters() {
    for _ in 0..50 {
        let code = CaptchaManager::generate_captcha();
        assert_eq!(code.chars().count(), 6);
        assert!(code.chars().all(|c| c.is_ascii_digit() || c.is_ascii_uppercase()));
    }
    let many: Vec<String> = (0..20).map(|_| CaptchaManager::generate_captcha()).collect();
    assert!(many.iter().any(|c| c != &many[0]));
}

#[test]
fn captcha_tries_are_counted() {
    let second: i64 = 1_000_000;
    let mut m = CaptchaManager::new();
    assert!(!m.verify_captcha_at("s", "ABC123", 0));
    m.store_captcha_at("s", "ABC123", 0);
    assert!(!m.verify_captcha_at("s", "wrong", second));
    assert!(m.verify_captcha_at("s", "ABC123", second));
    assert!(m.verify_captcha_at("s", "ABC123", second));
    assert!(!m.verify_captcha_at("s", "ABC123", second));
    assert!(!m.verify_captcha_at("s", "ABC123", second));
    m.store_captcha_at("s", "NEW000", 0);
    assert!(m.verify_captcha_at("s", "NEW000", second));
}

#[test]
fn captcha_expires_after_five_minutes() {
    let second: i64 = 1_000_000;
    let mut m = CaptchaManager::new();
    m.store_captcha_at("s", "ABC123", 0);
    assert!(m.verify_captcha_at("s", "ABC123", 301 * second - 1));
    assert!(!m.verify_captcha_at("s", "ABC123", 301 * second));
    assert!(!m.verify_captcha_at("s", "ABC123", second));
    m.store_captcha_at("old", "A", 0);
    m.store_captcha_at("new", "B", 100 * second);
    m.cleanup_expired_captchas_at(350 * second);
    assert!(!m.verify_captcha_at("old", "A", 350 * second));
    assert!(m.verify_captcha_at("new", "B", 350 * second));
    m.cleanup_expired_captchas();
    assert!(!m.verify_captcha("new", "B"));
    m.store_captcha_at("far", "C", i64::MAX);
    assert!(m.verify_captcha("far", "C"));
}

#[test]
fn text_helpers() {
    let chars = to_chars("a目b");
    assert_eq!(chars, vec!['a', '目', 'b']);
    assert_eq!(from_chars(&chars), "a目b");
    assert!(starts_with(&chars, &to_chars("a目")));
    assert!(!starts_with(&chars, &to_chars("a目bc")));
    assert!(starts_with(&chars, &to_chars("")));
    let mut s = String::from("n=");
    push_decimal(&mut s, 0);
    push_decimal(&mut s, 907);
    push_decimal(&mut s, u64::MAX);
    assert_eq!(s, "n=090718446744073709551615");
}

#[test]
fn hash_report_hands_on_hash_or_failure() {
    assert_eq!(AuthManager::hash_report(Ok("$2b$12$abc".to_string())), Ok("$2b$12$abc".to_string()));
    assert_eq!(
        AuthManager::hash_report(Err("no randomness".to_string())),
        Err("密码加密失败: no randomness".to_string())
    );
    assert_eq!(AuthManager::hash_report(Err(String::new())), Err("密码加密失败: ".to_string()));
}

#[test]
fn clock_sweeps_drop_what_is_old() {
    let mut m = AuthManager::new();
    m.blacklist_token_at("ancient", 0);
    m.blacklist_token("fresh");
    m.cleanup_expired_tokens();
    assert!(!m.is_token_blacklisted("ancient"));
    assert!(m.is_token_blacklisted("fresh"));
    let mut c = CaptchaManager::new();
    c.store_captcha_at("ancient", "A", 0);
    c.store_captcha_at("far", "B", i64::MAX);
    c.cleanup_expired_captchas();
    assert!(!c.verify_captcha_at("ancient", "A", 1));
    assert!(c.verify_captcha_at("far", "B", i64::MAX));
}

#[test]
fn clock_try_counts_and_drops() {
    let mut c = CaptchaManager::new();
    c.store_captcha_at("far", "B", i64::MAX);
    assert!(!c.verify_captcha("far", "wrong"));
    assert!(c.verify_captcha("far", "B"));
    assert!(c.verify_captcha("far", "B"));
    assert!(!c.verify_captcha("far", "B"));
    assert!(!c.verify_captcha_at("far", "B", i64::MAX));
    c.store_captcha_at("old", "A", 0);
    assert!(!c.verify_captcha("old", "A"));
    assert!(!c.verify_captcha_at("old", "A", 1));
    assert!(!c.verify_captcha("nobody", "A"));
}
