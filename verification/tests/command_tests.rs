use vfs_core::account;
use vfs_core::command::dispatch::{dispatch, Dispatch};
use vfs_core::command::handlers::{
    CdCommand, ClearCommand, HelpCommand, IdCommand, LoginCommand, LogoutCommand, LsCommand,
    MkdirCommand, ProfileCommand, PwdCommand, RegisterCommand,
};
use vfs_core::command::profile::ProfileAction;
use vfs_core::command::register::{validate_password, validate_username};
use vfs_core::auth::Claims;
use vfs_core::command::session::{
    home_cwd, requester, requires_auth, role_from_name, rooted, same_text,
};
use vfs_core::model::Role;

fn words(line: &str) -> Vec<String> {
    line.split_whitespace().map(|w| w.to_string()).collect()
}

#[test]
fn command_names() {
    assert_eq!(CdCommand::new().name(), "cd");
    assert_eq!(ClearCommand::new().name(), "clear");
    assert_eq!(HelpCommand::new().name(), "help");
    assert_eq!(IdCommand::new().name(), "id");
    assert_eq!(LoginCommand::new().name(), "login");
    assert_eq!(LogoutCommand::new().name(), "logout");
    assert_eq!(LsCommand::new().name(), "ls");
    assert_eq!(MkdirCommand::new().name(), "mkdir");
    assert_eq!(ProfileCommand::new().name(), "profile");
    assert_eq!(PwdCommand::new().name(), "pwd");
    assert_eq!(RegisterCommand::new().name(), "register");
}

#[test]
fn command_descriptions() {
    assert_eq!(CdCommand::new().description(), "切换当前工作目录");
    assert_eq!(ClearCommand::new().description(), "清除屏幕，用法：clear");
    assert_eq!(HelpCommand::new().description(), "显示所有可用命令的帮助信息");
    assert_eq!(PwdCommand::new().description(), "显示当前工作目录，用法：pwd");
    assert_eq!(MkdirCommand::new().description(), "创建目录，用法：mkdir [-p] <目录名>");
    assert!(RegisterCommand::new().description().contains("--confirm"));
    assert!(LoginCommand::new().description().contains("login <username>"));
    assert!(ProfileCommand::new().description().contains("profile show"));
    assert!(!IdCommand::new().description().is_empty());
    assert!(!LogoutCommand::new().description().is_empty());
    assert!(!LsCommand::new().description().is_empty());
}

#[test]
fn commands_that_need_a_token() {
    for name in ["profile", "logout", "id", "ls", "pwd", "mkdir", "rm", "mv"] {
        assert!(requires_auth(name), "{}", name);
    }
    for name in ["login", "register", "help", "clear", "cd", "", "LS", "ls "] {
        assert!(!requires_auth(name), "{}", name);
    }
}

#[test]
fn stored_role_names() {
    assert_eq!(role_from_name("admin"), Role::Admin);
    assert_eq!(role_from_name("user"), Role::Author);
    assert_eq!(role_from_name("guest"), Role::Guest);
    assert_eq!(role_from_name("Admin"), Role::Guest);
    assert_eq!(role_from_name(""), Role::Guest);
}

#[test]
fn working_directory_of_a_requester() {
    assert_eq!(home_cwd(Some("alice")), "/home/alice/");
    assert_eq!(home_cwd(None), "/home/guest/");
}

#[test]
fn texts_compare_by_characters() {
    assert!(same_text("目录", "目录"));
    assert!(!same_text("a", "ab"));
    assert!(same_text("", ""));
}

#[test]
fn dispatch_decisions() {
    assert!(matches!(dispatch(&words("")), Dispatch::Empty));
    match dispatch(&words("description ls")) {
        Dispatch::Describe(name) => assert_eq!(name, "ls"),
        other => panic!("unexpected: {:?}", other),
    }
    match dispatch(&words("description")) {
        Dispatch::Run { command, with_token } => {
            assert_eq!(command, "description");
            assert!(!with_token);
        }
        other => panic!("unexpected: {:?}", other),
    }
    match dispatch(&words("ls /home")) {
        Dispatch::Run { command, with_token } => {
            assert_eq!(command, "ls");
            assert!(with_token);
        }
        other => panic!("unexpected: {:?}", other),
    }
    match dispatch(&words("login a b")) {
        Dispatch::Run { command, with_token } => {
            assert_eq!(command, "login");
            assert!(!with_token);
        }
        other => panic!("unexpected: {:?}", other),
    }
}

#[test]
fn username_rules() {
    assert!(validate_username("abc").is_ok());
    assert!(validate_username("a_b_9").is_ok());
    assert!(validate_username("用户").is_ok());
    assert_eq!(validate_username("ab"), Err("用户名长度必须大于等于3个字符".to_string()));
    assert_eq!(
        validate_username("abcdefghijklmnopqrstu"),
        Err("用户名长度不能超过20个字符".to_string())
    );
    assert!(validate_username("abcdefghijklmnopqrst").is_ok());
    assert_eq!(validate_username("a-b"), Err("用户名只能包含字母、数字和下划线".to_string()));
    assert_eq!(validate_username("a b"), Err("用户名只能包含字母、数字和下划线".to_string()));
    assert_eq!(validate_username("用户用户用户用"), Err("用户名长度不能超过20个字符".to_string()));
}

#[test]
fn password_rules() {
    assert!(validate_password("123456").is_ok());
    assert_eq!(validate_password("12345"), Err("密码长度必须大于等于6个字符".to_string()));
    assert!(validate_password(&"x".repeat(32)).is_ok());
    assert_eq!(validate_password(&"x".repeat(33)), Err("密码长度不能超过32个字符".to_string()));
}

#[test]
fn register_line() {
    let cmd = RegisterCommand::new();
    let ok = cmd.parse(&words("register bob secret1 --confirm secret1 --captcha AB12CD")).unwrap();
    assert_eq!(ok.username, "bob");
    assert_eq!(ok.password, "secret1");
    assert_eq!(ok.captcha_code, "AB12CD");
    assert!(!ok.show_password);
    let shown =
        cmd.parse(&words("register bob pw --show --captcha X --confirm no --confirm pw")).unwrap();
    assert!(shown.show_password);
    assert_eq!(shown.captcha_code, "X");
    assert_eq!(cmd.parse(&words("register bob")).unwrap_err(), "请提供用户名和密码");
    assert_eq!(cmd.parse(&words("register bob pw --confirm")).unwrap_err(), "请提供确认密码");
    assert_eq!(cmd.parse(&words("register bob pw --captcha")).unwrap_err(), "请提供验证码");
    assert_eq!(cmd.parse(&words("register bob pw --what")).unwrap_err(), "未知参数: --what");
    assert_eq!(
        cmd.parse(&words("register bob pw --captcha X")).unwrap_err(),
        "请使用 --confirm 参数确认密码"
    );
    assert_eq!(
        cmd.parse(&words("register bob pw --confirm other --captcha X")).unwrap_err(),
        "两次输入的密码不一致"
    );
    assert_eq!(cmd.parse(&words("register bob pw --confirm pw")).unwrap_err(), "请提供验证码");
}

#[test]
fn login_line() {
    let cmd = LoginCommand::new();
    let plain = cmd.parse(&words("login bob pw")).unwrap();
    assert_eq!(plain.username, "bob");
    assert_eq!(plain.password, "pw");
    assert_eq!(plain.captcha_code, None);
    let coded = cmd.parse(&words("login bob pw --captcha A --captcha B")).unwrap();
    assert_eq!(coded.captcha_code, Some("B".to_string()));
    assert_eq!(cmd.parse(&words("login bob")).unwrap_err(), "请提供用户名和密码");
    assert_eq!(cmd.parse(&words("login bob pw --captcha")).unwrap_err(), "请提供验证码");
    assert_eq!(cmd.parse(&words("login bob pw extra")).unwrap_err(), "未知参数: extra");
}

#[test]
fn mkdir_line() {
    let cmd = MkdirCommand::new();
    let plain = cmd.parse(&words("mkdir docs")).unwrap();
    assert!(!plain.recursive);
    assert_eq!(plain.dir_name, "docs");
    let deep = cmd.parse(&words("mkdir -p a/b")).unwrap();
    assert!(deep.recursive);
    assert_eq!(deep.dir_name, "a/b");
    assert_eq!(cmd.parse(&words("mkdir")).unwrap_err(), "用法：mkdir [-p] <目录名>");
    assert_eq!(cmd.parse(&words("mkdir -p")).unwrap_err(), "用法：mkdir -p <目录名>");
}

#[test]
fn mkdir_plan_for_relative_name() {
    let steps = MkdirCommand::new().plan("a//b/c/", "/home/alice/");
    let got: Vec<(String, String)> = steps.into_iter().map(|s| (s.path, s.cwd)).collect();
    assert_eq!(
        got,
        vec![
            ("/home/alice/a".to_string(), "/home/alice/".to_string()),
            ("/home/alice/a/b".to_string(), "/home/alice/a".to_string()),
            ("/home/alice/a/b/c".to_string(), "/home/alice/a/b".to_string()),
        ]
    );
}

#[test]
fn mkdir_plan_for_absolute_name() {
    let steps = MkdirCommand::new().plan("/x/y", "/home/alice/");
    let got: Vec<(String, String)> = steps.into_iter().map(|s| (s.path, s.cwd)).collect();
    assert_eq!(
        got,
        vec![("/x".to_string(), "/".to_string()), ("/x/y".to_string(), "/x".to_string())]
    );
    assert!(MkdirCommand::new().plan("/", "/home/alice/").is_empty());
    assert!(MkdirCommand::new().plan("", "/home/alice/").is_empty());
}

#[test]
fn cd_line() {
    let cmd = CdCommand::new();
    assert_eq!(cmd.parse(&words("cd /home")).unwrap(), "/home");
    assert_eq!(cmd.parse(&words("cd")).unwrap_err(), "用法: cd <目录路径>");
    assert_eq!(cmd.parse(&words("cd a b")).unwrap_err(), "用法: cd <目录路径>");
    assert_eq!(cmd.with_slashes("a\\b\\c/d"), "a/b/c/d");
}

#[test]
fn ls_line() {
    let cmd = LsCommand::new();
    assert_eq!(cmd.target(&words("ls")), ".");
    assert_eq!(cmd.target(&words("ls /home more")), "/home");
}

#[test]
fn profile_show_and_usage() {
    let cmd = ProfileCommand::new();
    assert!(matches!(cmd.parse_on(&words("profile"), 0), Ok(ProfileAction::Show)));
    assert!(matches!(cmd.parse_on(&words("profile show"), 0), Ok(ProfileAction::Show)));
    assert!(matches!(cmd.parse(&words("profile show")), Ok(ProfileAction::Show)));
    let usage = "用法: profile show | profile update [--email <email>] [--gender <gender>] [--birthday <YYYY-MM-DD>]";
    assert_eq!(cmd.parse_on(&words("profile show more"), 0).unwrap_err(), usage);
    assert_eq!(cmd.parse_on(&words("profile delete"), 0).unwrap_err(), usage);
    assert_eq!(cmd.parse_on(&Vec::new(), 0).unwrap_err(), usage);
}

#[test]
fn profile_update_line() {
    let cmd = ProfileCommand::new();
    let today = 738000;
    match cmd.parse_on(
        &words("profile update --email a.b@c.org --gender other --birthday 2000-01-01"),
        today,
    ) {
        Ok(ProfileAction::Update(u)) => {
            assert_eq!(u.email, Some("a.b@c.org".to_string()));
            assert_eq!(u.gender, Some("other".to_string()));
            assert_eq!(u.birthday, Some(730120));
        }
        other => panic!("unexpected: {:?}", other),
    }
    match cmd.parse_on(&words("profile update"), today) {
        Ok(ProfileAction::Update(u)) => {
            assert_eq!(u.email, None);
            assert_eq!(u.gender, None);
            assert_eq!(u.birthday, None);
        }
        other => panic!("unexpected: {:?}", other),
    }
    let err = |line: &str| cmd.parse_on(&words(line), today).unwrap_err();
    assert_eq!(err("profile update --email"), "请提供邮箱地址");
    assert_eq!(err("profile update --email nobody"), "邮箱格式不正确");
    assert_eq!(err("profile update --email a@b"), "邮箱格式不正确");
    assert_eq!(err("profile update --email a@b.c"), "邮箱格式不正确");
    assert_eq!(err("profile update --gender"), "请提供性别");
    assert_eq!(err("profile update --gender none"), "性别必须是 male、female 或 other");
    assert_eq!(err("profile update --birthday"), "请提供生日");
    assert_eq!(err("profile update --birthday 01/02/2000"), "生日格式不正确，请使用 YYYY-MM-DD 格式");
    assert_eq!(err("profile update --birthday 2000-02-30"), "生日格式不正确，请使用 YYYY-MM-DD 格式");
    assert_eq!(err("profile update --birthday 2030-01-01"), "生日不能是未来日期");
    assert_eq!(err("profile update --age 3"), "未知参数: --age");
    assert!(cmd.parse_on(&words("profile update --birthday 2000-01-01"), 730120).is_ok());
    assert!(cmd.parse_on(&words("profile update --birthday 2000-01-02"), 730120).is_err());
    assert!(cmd.parse(&words("profile update --birthday 2000-01-01")).is_ok());
    assert!(cmd.parse(&words("profile update --birthday 9000-01-01")).is_err());
}

#[test]
fn account_name_rules() {
    let check = account::validate_username;
    assert!(check("abc").is_ok());
    assert!(check("a-b_9").is_ok());
    assert_eq!(check("ab"), Err("用户名长度必须在3-20个字符之间".to_string()));
    assert_eq!(check("abcdefghijklmnopqrstu"), Err("用户名长度必须在3-20个字符之间".to_string()));
    assert_eq!(check("a b c"), Err("用户名只能包含字母、数字、下划线和连字符".to_string()));
    assert_eq!(check("用户"), Err("用户名只能包含字母、数字、下划线和连字符".to_string()));
}

#[test]
fn password_strength_rules() {
    let check = account::validate_password;
    assert!(check("Abcdef1!").is_ok());
    assert_eq!(check("Ab1!"), Err("密码长度必须至少为8个字符".to_string()));
    assert_eq!(check("abcdefg1!"), Err("密码必须包含大写字母".to_string()));
    assert_eq!(check("ABCDEFG1!"), Err("密码必须包含小写字母".to_string()));
    assert_eq!(check("Abcdefgh!"), Err("密码必须包含数字".to_string()));
    assert_eq!(check("Abcdefgh1"), Err("密码必须包含特殊字符".to_string()));
}

#[test]
fn email_gender_birthday_rules() {
    assert!(account::validate_email("a.b+c@example.org").is_ok());
    assert_eq!(account::validate_email("a@b"), Err("邮箱格式不正确".to_string()));
    assert_eq!(account::validate_email("a b@c.de"), Err("邮箱格式不正确".to_string()));
    for g in ["male", "female", "other"] {
        assert!(account::validate_gender(g).is_ok());
    }
    assert_eq!(account::validate_gender("Male"), Err("性别必须是 male、female 或 other".to_string()));
    assert_eq!(account::validate_birthday_on("1970-01-01", 730120), Ok(719163));
    assert_eq!(account::validate_birthday_on("2000-01-01", 730120), Ok(730120));
    assert_eq!(account::validate_birthday_on("2000-01-02", 730120), Err("生日不能是未来的日期".to_string()));
    assert_eq!(account::validate_birthday_on("2000-13-01", 730120), Err("生日格式必须是 YYYY-MM-DD".to_string()));
    assert_eq!(account::validate_birthday("1999-12-31"), Ok(730119));
    assert!(account::validate_birthday("9999-12-31").is_err());
}

#[test]
fn request_paths_begin_at_the_root() {
    assert_eq!(rooted("home/alice"), "/home/alice");
    assert_eq!(rooted("/home/alice"), "/home/alice");
    assert_eq!(rooted(""), "/");
}

#[test]
fn claims_name_the_requester() {
    let claims = Claims::issue("u1", "alice", "admin", 0);
    let user = requester(&claims);
    assert_eq!(user.id, "u1");
    assert_eq!(user.username, "alice");
    assert_eq!(user.roles, vec![Role::Admin]);
    let other = requester(&Claims::issue("u2", "bob", "whatever", 0));
    assert_eq!(other.roles, vec![Role::Guest]);
}
