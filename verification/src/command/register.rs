use vstd::prelude::*;
use vstd::string::*;
use vstd::utf8::encode_utf8;
use crate::command::handlers::{LoginCommand, RegisterCommand};
use crate::command::session::same_text;
use crate::text::to_chars;

verus! {

/// The characters of each argument of a command line.
pub open spec fn texts(args: Seq<String>) -> Seq<Seq<char>> {
    Seq::new(args.len(), |i: int| args[i]@)
}

/// What `register` was asked to do.
#[derive(Debug)]
pub struct RegisterRequest {
    pub username: String,
    pub password: String,
    pub captcha_code: String,
    pub show_password: bool,
}

/// Mathematical value of a [`RegisterRequest`].
pub struct RegisterRequestView {
    pub username: Seq<char>,
    pub password: Seq<char>,
    pub captcha_code: Seq<char>,
    pub show_password: bool,
}

impl View for RegisterRequest {
    type V = RegisterRequestView;

    open spec fn view(&self) -> RegisterRequestView {
        RegisterRequestView {
            username: self.username@,
            password: self.password@,
            captcha_code: self.captcha_code@,
            show_password: self.show_password,
        }
    }
}

/// The options of `register` that have been read so far.
pub struct RegisterOptions {
    pub confirm: Option<Seq<char>>,
    pub captcha: Option<Seq<char>>,
    pub show: bool,
}

/// The options of `register` from argument `i` on, or the complaint about
/// the first argument that is no option or lacks its value.
pub open spec fn register_options(args: Seq<Seq<char>>, i: int, seen: RegisterOptions) -> Result<
    RegisterOptions,
    Seq<char>,
>
    decreases args.len() - i,
{
    if i < 0 || i >= args.len() {
        Ok(seen)
    } else if args[i] == "--confirm"@ {
        if i + 1 < args.len() {
            register_options(args, i + 2, RegisterOptions { confirm: Some(args[i + 1]), ..seen })
        } else {
            Err("请提供确认密码"@)
        }
    } else if args[i] == "--captcha"@ {
        if i + 1 < args.len() {
            register_options(args, i + 2, RegisterOptions { captcha: Some(args[i + 1]), ..seen })
        } else {
            Err("请提供验证码"@)
        }
    } else if args[i] == "--show"@ {
        register_options(args, i + 1, RegisterOptions { show: true, ..seen })
    } else {
        Err("未知参数: "@ + args[i])
    }
}

/// What a `register` command line asks for, or the complaint about it: the
/// user name and the password follow the command word, the password must be
/// confirmed, and a captcha code must be given.
pub open spec fn register_request(args: Seq<Seq<char>>) -> Result<RegisterRequestView, Seq<char>> {
    if args.len() < 3 {
        Err("请提供用户名和密码"@)
    } else {
        let none = RegisterOptions { confirm: None, captcha: None, show: false };
        match register_options(args, 3, none) {
            Err(complaint) => Err(complaint),
            Ok(options) => match options.confirm {
                None => Err("请使用 --confirm 参数确认密码"@),
                Some(confirm) => if confirm != args[2] {
                    Err("两次输入的密码不一致"@)
                } else {
                    match options.captcha {
                        None => Err("请提供验证码"@),
                        Some(code) => Ok(
                            RegisterRequestView {
                                username: args[1],
                                password: args[2],
                                captcha_code: code,
                                show_password: options.show,
                            },
                        ),
                    }
                },
            },
        }
    }
}

/// Whether an executable answer has the value `expected`.
pub open spec fn register_answer_is(
    r: Result<RegisterRequest, String>,
    expected: Result<RegisterRequestView, Seq<char>>,
) -> bool {
    match r {
        Ok(request) => expected == Ok::<RegisterRequestView, Seq<char>>(request@),
        Err(complaint) => expected == Err::<RegisterRequestView, Seq<char>>(complaint@),
    }
}

/// What `login` was asked to do.
#[derive(Debug)]
pub struct LoginRequest {
    pub username: String,
    pub password: String,
    pub captcha_code: Option<String>,
}

/// Mathematical value of a [`LoginRequest`].
pub struct LoginRequestView {
    pub username: Seq<char>,
    pub password: Seq<char>,
    pub captcha_code: Option<Seq<char>>,
}

impl View for LoginRequest {
    type V = LoginRequestView;

    open spec fn view(&self) -> LoginRequestView {
        LoginRequestView {
            username: self.username@,
            password: self.password@,
            captcha_code: match self.captcha_code {
                Some(code) => Some(code@),
                None => None,
            },
        }
    }
}

/// The captcha code among the options of `login` from argument `i` on, or
/// the complaint about the first argument that is no option or lacks its
/// value.
pub open spec fn login_options(args: Seq<Seq<char>>, i: int, seen: Option<Seq<char>>) -> Result<
    Option<Seq<char>>,
    Seq<char>,
>
    decreases args.len() - i,
{
    if i < 0 || i >= args.len() {
        Ok(seen)
    } else if args[i] == "--captcha"@ {
        if i + 1 < args.len() {
            login_options(args, i + 2, Some(args[i + 1]))
        } else {
            Err("请提供验证码"@)
        }
    } else {
        Err("未知参数: "@ + args[i])
    }
}

/// What a `login` command line asks for, or the complaint about it: the
/// user name and the password follow the command word, and a captcha code
/// may follow them.
pub open spec fn login_request(args: Seq<Seq<char>>) -> Result<LoginRequestView, Seq<char>> {
    if args.len() < 3 {
        Err("请提供用户名和密码"@)
    } else {
        match login_options(args, 3, None) {
            Err(complaint) => Err(complaint),
            Ok(code) => Ok(
                LoginRequestView { username: args[1], password: args[2], captcha_code: code },
            ),
        }
    }
}

/// Whether an executable answer has the value `expected`.
pub open spec fn login_answer_is(
    r: Result<LoginRequest, String>,
    expected: Result<LoginRequestView, Seq<char>>,
) -> bool {
    match r {
        Ok(request) => expected == Ok::<LoginRequestView, Seq<char>>(request@),
        Err(complaint) => expected == Err::<LoginRequestView, Seq<char>>(complaint@),
    }
}

/// The length of a text in bytes, as UTF-8.
pub open spec fn byte_len(text: Seq<char>) -> usize {
    encode_utf8(text).len() as usize
}

/// Whether `c` is a letter or a digit of any script, as `char::is_alphanumeric`
/// tells.
pub uninterp spec fn alphanumeric(c: char) -> bool;

/// `char::is_alphanumeric` tells whether the character is a letter or a digit
/// by the Unicode tables; its answer depends on the character alone.
pub assume_specification[ char::is_alphanumeric ](c: char) -> (r: bool)
    ensures
        r == alphanumeric(c),
;

/// Whether every character is a letter, a digit or an underscore.
pub open spec fn word_chars_only(text: Seq<char>) -> bool {
    forall|i: int| 0 <= i < text.len() ==> alphanumeric(#[trigger] text[i]) || text[i] == '_'
}

/// The complaint about a user name, if there is one: it must have 3 to 20
/// bytes and hold letters, digits and underscores only.
pub open spec fn username_complaint(username: Seq<char>) -> Option<Seq<char>> {
    if byte_len(username) < 3 {
        Some("用户名长度必须大于等于3个字符"@)
    } else if byte_len(username) > 20 {
        Some("用户名长度不能超过20个字符"@)
    } else if !word_chars_only(username) {
        Some("用户名只能包含字母、数字和下划线"@)
    } else {
        None
    }
}

/// The complaint about a password, if there is one: it must have 6 to 32
/// bytes.
pub open spec fn password_complaint(password: Seq<char>) -> Option<Seq<char>> {
    if byte_len(password) < 6 {
        Some("密码长度必须大于等于6个字符"@)
    } else if byte_len(password) > 32 {
        Some("密码长度不能超过32个字符"@)
    } else {
        None
    }
}

/// Whether an executable verdict has the value `expected`.
pub open spec fn complaint_is(r: Result<(), String>, expected: Option<Seq<char>>) -> bool {
    match r {
        Ok(_) => expected is None,
        Err(complaint) => expected == Some(complaint@),
    }
}

/// Checks a user name for `register`.
pub fn validate_username(username: &str) -> (r: Result<(), String>)
    ensures
        complaint_is(r, username_complaint(username@)),
{
    if username.len() < 3 {
        return Err("用户名长度必须大于等于3个字符".to_owned());
    }
    if username.len() > 20 {
        return Err("用户名长度不能超过20个字符".to_owned());
    }
    let chars = to_chars(username);
    let mut i: usize = 0;
    while i < chars.len()
        invariant
            i <= chars.len(),
            chars@ == username@,
            3 <= byte_len(username@) <= 20,
            forall|k: int| 0 <= k < i ==> alphanumeric(#[trigger] chars@[k]) || chars@[k] == '_',
        decreases chars.len() - i,
    {
        let c = chars[i];
        if !(c.is_alphanumeric() || c == '_') {
            return Err("用户名只能包含字母、数字和下划线".to_owned());
        }
        i += 1;
    }
    Ok(())
}

/// Checks a password for `register`.
pub fn validate_password(password: &str) -> (r: Result<(), String>)
    ensures
        complaint_is(r, password_complaint(password@)),
{
    if password.len() < 6 {
        return Err("密码长度必须大于等于6个字符".to_owned());
    }
    if password.len() > 32 {
        return Err("密码长度不能超过32个字符".to_owned());
    }
    Ok(())
}

impl RegisterCommand {
    /// Reads a `register` command line, whose first word is the command.
    pub fn parse(&self, args: &Vec<String>) -> (r: Result<RegisterRequest, String>)
        ensures
            register_answer_is(r, register_request(texts(args@))),
    {
        if args.len() < 3 {
            return Err("请提供用户名和密码".to_owned());
        }
        let ghost words = texts(args@);
        let mut confirm: Option<String> = None;
        let mut captcha: Option<String> = None;
        let mut show = false;
        let mut i: usize = 3;
        while i < args.len()
            invariant
                3 <= i,
                words == texts(args@),
                register_options(
                    words,
                    3,
                    RegisterOptions { confirm: None, captcha: None, show: false },
                ) == register_options(
                    words,
                    i as int,
                    RegisterOptions {
                        confirm: match confirm {
                            Some(c) => Some(c@),
                            None => None,
                        },
                        captcha: match captcha {
                            Some(c) => Some(c@),
                            None => None,
                        },
                        show,
                    },
                ),
            decreases args.len() + 2 - i,
        {
            assert(words[i as int] == args@[i as int]@);
            let word = args[i].as_str();
            if same_text(word, "--confirm") {
                if i + 1 < args.len() {
                    assert(words[i + 1] == args@[i + 1]@);
                    confirm = Some(args[i + 1].clone());
                    i += 2;
                } else {
                    return Err("请提供确认密码".to_owned());
                }
            } else if same_text(word, "--captcha") {
                if i + 1 < args.len() {
                    assert(words[i + 1] == args@[i + 1]@);
                    captcha = Some(args[i + 1].clone());
                    i += 2;
                } else {
                    return Err("请提供验证码".to_owned());
                }
            } else if same_text(word, "--show") {
                show = true;
                i += 1;
            } else {
                let mut complaint = "未知参数: ".to_owned();
                complaint.append(word);
                return Err(complaint);
            }
        }
        assert(words[1] == args@[1]@ && words[2] == args@[2]@);
        let confirmed = match confirm {
            Some(c) => c,
            None => { return Err("请使用 --confirm 参数确认密码".to_owned()); },
        };
        if confirmed != args[2] {
            return Err("两次输入的密码不一致".to_owned());
        }
        let code = match captcha {
            Some(c) => c,
            None => { return Err("请提供验证码".to_owned()); },
        };
        Ok(
            RegisterRequest {
                username: args[1].clone(),
                password: args[2].clone(),
                captcha_code: code,
                show_password: show,
            },
        )
    }
}

impl LoginCommand {
    /// Reads a `login` command line, whose first word is the command.
    pub fn parse(&self, args: &Vec<String>) -> (r: Result<LoginRequest, String>)
        ensures
            login_answer_is(r, login_request(texts(args@))),
    {
        if args.len() < 3 {
            return Err("请提供用户名和密码".to_owned());
        }
        let ghost words = texts(args@);
        let mut captcha: Option<String> = None;
        let mut i: usize = 3;
        while i < args.len()
            invariant
                3 <= i,
                words == texts(args@),
                login_options(words, 3, None) == login_options(
                    words,
                    i as int,
                    match captcha {
                        Some(c) => Some(c@),
                        None => None,
                    },
                ),
            decreases args.len() + 2 - i,
        {
            assert(words[i as int] == args@[i as int]@);
            let word = args[i].as_str();
            if same_text(word, "--captcha") {
                if i + 1 < args.len() {
                    assert(words[i + 1] == args@[i + 1]@);
                    captcha = Some(args[i + 1].clone());
                    i += 2;
                } else {
                    return Err("请提供验证码".to_owned());
                }
            } else {
                let mut complaint = "未知参数: ".to_owned();
                complaint.append(word);
                return Err(complaint);
            }
        }
        assert(words[1] == args@[1]@ && words[2] == args@[2]@);
        Ok(LoginRequest { username: args[1].clone(), password: args[2].clone(), captcha_code: captcha })
    }
}

} // verus!
