use vstd::prelude::*;
use vstd::string::*;
use crate::clock::today_days;
use crate::command::profile::{birthday_format, email_ok, gender_ok};
use crate::command::register::{alphanumeric, byte_len, complaint_is};
use crate::command::session::same_text;
use crate::pattern::{date_days, parse_date, regex_match, regex_verdict};
use crate::text::to_chars;

verus! {

/// Whether `c` is an uppercase letter, as `char::is_uppercase` tells.
pub uninterp spec fn uppercase(c: char) -> bool;

/// Whether `c` is a lowercase letter, as `char::is_lowercase` tells.
pub uninterp spec fn lowercase(c: char) -> bool;

/// Whether `c` is a numeric character, as `char::is_numeric` tells.
pub uninterp spec fn numeric(c: char) -> bool;

/// `char::is_uppercase` tells by the Unicode tables whether the character
/// is an uppercase letter; its answer depends on the character alone.
pub assume_specification[ char::is_uppercase ](c: char) -> (r: bool)
    ensures
        r == uppercase(c),
;

/// `char::is_lowercase` tells by the Unicode tables whether the character
/// is a lowercase letter; its answer depends on the character alone.
pub assume_specification[ char::is_lowercase ](c: char) -> (r: bool)
    ensures
        r == lowercase(c),
;

/// `char::is_numeric` tells by the Unicode tables whether the character is
/// numeric; its answer depends on the character alone.
pub assume_specification[ char::is_numeric ](c: char) -> (r: bool)
    ensures
        r == numeric(c),
;

/// The pattern of the characters that an account name may hold.
pub open spec fn name_pattern() -> Seq<char> {
    "^[a-zA-Z0-9_-]+$"@
}

/// The complaint about an account name, if there is one: it must have 3 to
/// 20 bytes and hold Latin letters, digits, underscores and hyphens only.
pub open spec fn account_name_complaint(username: Seq<char>) -> Option<Seq<char>> {
    if byte_len(username) < 3 || byte_len(username) > 20 {
        Some("用户名长度必须在3-20个字符之间"@)
    } else if regex_verdict(name_pattern(), username) != Some(true) {
        Some("用户名只能包含字母、数字、下划线和连字符"@)
    } else {
        None
    }
}

/// The complaint about the strength of a password, if there is one: it
/// must have 8 bytes at least, and an uppercase letter, a lowercase letter,
/// a numeric character and a character that is neither letter nor digit.
pub open spec fn strength_complaint(password: Seq<char>) -> Option<Seq<char>> {
    if byte_len(password) < 8 {
        Some("密码长度必须至少为8个字符"@)
    } else if !(exists|i: int| 0 <= i < password.len() && uppercase(#[trigger] password[i])) {
        Some("密码必须包含大写字母"@)
    } else if !(exists|i: int| 0 <= i < password.len() && lowercase(#[trigger] password[i])) {
        Some("密码必须包含小写字母"@)
    } else if !(exists|i: int| 0 <= i < password.len() && numeric(#[trigger] password[i])) {
        Some("密码必须包含数字"@)
    } else if !(exists|i: int| 0 <= i < password.len() && !alphanumeric(#[trigger] password[i])) {
        Some("密码必须包含特殊字符"@)
    } else {
        None
    }
}

/// What checking a birthday on the day `today` gives: the date in days
/// from the first of January of the year 1, or the complaint.
pub open spec fn birthday_verdict(text: Seq<char>, today: i32) -> Result<i32, Seq<char>> {
    match date_days(text, birthday_format()) {
        Some(day) => if day > today {
            Err("生日不能是未来的日期"@)
        } else {
            Ok(day)
        },
        None => Err("生日格式必须是 YYYY-MM-DD"@),
    }
}

/// Whether an executable verdict on a birthday has the value `expected`.
pub open spec fn birthday_answer_is(r: Result<i32, String>, expected: Result<i32, Seq<char>>) -> bool {
    match r {
        Ok(day) => expected == Ok::<i32, Seq<char>>(day),
        Err(complaint) => expected == Err::<i32, Seq<char>>(complaint@),
    }
}

/// The kinds of character that a password holds.
struct Kinds {
    upper: bool,
    lower: bool,
    digit: bool,
    special: bool,
}

/// Looks for each kind of character in `chars`.
fn kinds_of(chars: &Vec<char>) -> (k: Kinds)
    ensures
        k.upper == exists|i: int| 0 <= i < chars@.len() && uppercase(#[trigger] chars@[i]),
        k.lower == exists|i: int| 0 <= i < chars@.len() && lowercase(#[trigger] chars@[i]),
        k.digit == exists|i: int| 0 <= i < chars@.len() && numeric(#[trigger] chars@[i]),
        k.special == exists|i: int| 0 <= i < chars@.len() && !alphanumeric(#[trigger] chars@[i]),
{
    let mut k = Kinds { upper: false, lower: false, digit: false, special: false };
    let mut n: usize = 0;
    while n < chars.len()
        invariant
            n <= chars.len(),
            k.upper == exists|i: int| 0 <= i < n && uppercase(#[trigger] chars@[i]),
            k.lower == exists|i: int| 0 <= i < n && lowercase(#[trigger] chars@[i]),
            k.digit == exists|i: int| 0 <= i < n && numeric(#[trigger] chars@[i]),
            k.special == exists|i: int| 0 <= i < n && !alphanumeric(#[trigger] chars@[i]),
        decreases chars.len() - n,
    {
        let c = chars[n];
        if c.is_uppercase() {
            k.upper = true;
        }
        if c.is_lowercase() {
            k.lower = true;
        }
        if c.is_numeric() {
            k.digit = true;
        }
        if !c.is_alphanumeric() {
            k.special = true;
        }
        proof {
            let c = chars@[n as int];
            assert(uppercase(c) ==> k.upper);
            assert(lowercase(c) ==> k.lower);
            assert(numeric(c) ==> k.digit);
            assert(!alphanumeric(c) ==> k.special);
        }
        n += 1;
    }
    k
}

/// Checks an account name.
pub fn validate_username(username: &str) -> (r: Result<(), String>)
    ensures
        complaint_is(r, account_name_complaint(username@)),
{
    if username.len() < 3 || username.len() > 20 {
        return Err("用户名长度必须在3-20个字符之间".to_owned());
    }
    let matched = match regex_match("^[a-zA-Z0-9_-]+$", username) {
        Some(m) => m,
        None => false,
    };
    if !matched {
        return Err("用户名只能包含字母、数字、下划线和连字符".to_owned());
    }
    Ok(())
}

/// Checks the strength of a password.
pub fn validate_password(password: &str) -> (r: Result<(), String>)
    ensures
        complaint_is(r, strength_complaint(password@)),
{
    if password.len() < 8 {
        return Err("密码长度必须至少为8个字符".to_owned());
    }
    let chars = to_chars(password);
    let k = kinds_of(&chars);
    if !k.upper {
        return Err("密码必须包含大写字母".to_owned());
    }
    if !k.lower {
        return Err("密码必须包含小写字母".to_owned());
    }
    if !k.digit {
        return Err("密码必须包含数字".to_owned());
    }
    if !k.special {
        return Err("密码必须包含特殊字符".to_owned());
    }
    Ok(())
}

/// Checks the shape of an e-mail address.
pub fn validate_email(email: &str) -> (r: Result<(), String>)
    ensures
        r is Ok <==> email_ok(email@),
        r is Err ==> r->Err_0@ == "邮箱格式不正确"@,
{
    let matched = match regex_match("^[a-zA-Z0-9._%+-]+@[a-zA-Z0-9.-]+\\.[a-zA-Z]{2,}$", email) {
        Some(m) => m,
        None => false,
    };
    if matched {
        Ok(())
    } else {
        Err("邮箱格式不正确".to_owned())
    }
}

/// Checks that a gender is one that the profile knows.
pub fn validate_gender(gender: &str) -> (r: Result<(), String>)
    ensures
        r is Ok <==> gender_ok(gender@),
        r is Err ==> r->Err_0@ == "性别必须是 male、female 或 other"@,
{
    if same_text(gender, "male") || same_text(gender, "female") || same_text(gender, "other") {
        Ok(())
    } else {
        Err("性别必须是 male、female 或 other".to_owned())
    }
}

/// Checks a birthday on the day `today`: it must be a date, written as
/// year, month and day, that is not after that day.
pub fn validate_birthday_on(birthday: &str, today: i32) -> (r: Result<i32, String>)
    ensures
        birthday_answer_is(r, birthday_verdict(birthday@, today)),
{
    match parse_date(birthday, "%Y-%m-%d") {
        Some(day) => {
            if day > today {
                Err("生日不能是未来的日期".to_owned())
            } else {
                Ok(day)
            }
        },
        None => Err("生日格式必须是 YYYY-MM-DD".to_owned()),
    }
}

/// Checks a birthday on the day that the clock shows.
pub fn validate_birthday(birthday: &str) -> (r: Result<i32, String>)
    ensures
        exists|today: i32| birthday_answer_is(r, #[trigger] birthday_verdict(birthday@, today)),
{
    let today = today_days();
    let r = validate_birthday_on(birthday, today);
    assert(birthday_answer_is(r, birthday_verdict(birthday@, today)));
    r
}

} // verus!
