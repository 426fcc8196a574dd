use vstd::prelude::*;

verus! {

/// Changes the working directory.
#[derive(Clone, Copy, Debug)]
pub struct CdCommand;

impl CdCommand {
    /// The command.
    pub fn new() -> (c: Self) {
        CdCommand
    }

    /// The word that calls the command.
    pub fn name(&self) -> (r: &'static str)
        ensures
            r@ == "cd"@,
    {
        "cd"
    }

    /// One line on what the command does and how it is called.
    pub fn description(&self) -> (r: &'static str)
        ensures
            r@ == "切换当前工作目录"@,
    {
        "切换当前工作目录"
    }
}

/// Clears the screen.
#[derive(Clone, Copy, Debug)]
pub struct ClearCommand;

impl ClearCommand {
    /// The command.
    pub fn new() -> (c: Self) {
        ClearCommand
    }

    /// The word that calls the command.
    pub fn name(&self) -> (r: &'static str)
        ensures
            r@ == "clear"@,
    {
        "clear"
    }

    /// One line on what the command does and how it is called.
    pub fn description(&self) -> (r: &'static str)
        ensures
            r@ == "清除屏幕，用法：clear"@,
    {
        "清除屏幕，用法：clear"
    }
}

/// Shows the help text of every command.
#[derive(Clone, Copy, Debug)]
pub struct HelpCommand;

impl HelpCommand {
    /// The command.
    pub fn new() -> (c: Self) {
        HelpCommand
    }

    /// The word that calls the command.
    pub fn name(&self) -> (r: &'static str)
        ensures
            r@ == "help"@,
    {
        "help"
    }

    /// One line on what the command does and how it is called.
    pub fn description(&self) -> (r: &'static str)
        ensures
            r@ == "显示所有可用命令的帮助信息"@,
    {
        "显示所有可用命令的帮助信息"
    }
}

/// Shows who the requester is.
#[derive(Clone, Copy, Debug)]
pub struct IdCommand;

impl IdCommand {
    /// The command.
    pub fn new() -> (c: Self) {
        IdCommand
    }

    /// The word that calls the command.
    pub fn name(&self) -> (r: &'static str)
        ensures
            r@ == "id"@,
    {
        "id"
    }

    /// One line on what the command does and how it is called.
    pub fn description(&self) -> (r: &'static str)
        ensures
            r@ == "显示当前用户信息，用法：id"@,
    {
        "显示当前用户信息，用法：id"
    }
}

/// Logs a user in.
#[derive(Clone, Copy, Debug)]
pub struct LoginCommand;

impl LoginCommand {
    /// The command.
    pub fn new() -> (c: Self) {
        LoginCommand
    }

    /// The word that calls the command.
    pub fn name(&self) -> (r: &'static str)
        ensures
            r@ == "login"@,
    {
        "login"
    }

    /// One line on what the command does and how it is called.
    pub fn description(&self) -> (r: &'static str)
        ensures
            r@ == "用户登录，用法：login <username> <password> [--captcha <code>]"@,
    {
        "用户登录，用法：login <username> <password> [--captcha <code>]"
    }
}

/// Logs the requester out.
#[derive(Clone, Copy, Debug)]
pub struct LogoutCommand;

impl LogoutCommand {
    /// The command.
    pub fn new() -> (c: Self) {
        LogoutCommand
    }

    /// The word that calls the command.
    pub fn name(&self) -> (r: &'static str)
        ensures
            r@ == "logout"@,
    {
        "logout"
    }

    /// One line on what the command does and how it is called.
    pub fn description(&self) -> (r: &'static str)
        ensures
            r@ == "用户登出，用法：logout"@,
    {
        "用户登出，用法：logout"
    }
}

/// Lists a directory.
#[derive(Clone, Copy, Debug)]
pub struct LsCommand;

impl LsCommand {
    /// The command.
    pub fn new() -> (c: Self) {
        LsCommand
    }

    /// The word that calls the command.
    pub fn name(&self) -> (r: &'static str)
        ensures
            r@ == "ls"@,
    {
        "ls"
    }

    /// One line on what the command does and how it is called.
    pub fn description(&self) -> (r: &'static str)
        ensures
            r@ == "显示目录内容，用法：ls [路径]"@,
    {
        "显示目录内容，用法：ls [路径]"
    }
}

/// Creates a directory.
#[derive(Clone, Copy, Debug)]
pub struct MkdirCommand;

impl MkdirCommand {
    /// The command.
    pub fn new() -> (c: Self) {
        MkdirCommand
    }

    /// The word that calls the command.
    pub fn name(&self) -> (r: &'static str)
        ensures
            r@ == "mkdir"@,
    {
        "mkdir"
    }

    /// One line on what the command does and how it is called.
    pub fn description(&self) -> (r: &'static str)
        ensures
            r@ == "创建目录，用法：mkdir [-p] <目录名>"@,
    {
        "创建目录，用法：mkdir [-p] <目录名>"
    }
}

/// Shows or updates the requester's profile.
#[derive(Clone, Copy, Debug)]
pub struct ProfileCommand;

impl ProfileCommand {
    /// The command.
    pub fn new() -> (c: Self) {
        ProfileCommand
    }

    /// The word that calls the command.
    pub fn name(&self) -> (r: &'static str)
        ensures
            r@ == "profile"@,
    {
        "profile"
    }

    /// One line on what the command does and how it is called.
    pub fn description(&self) -> (r: &'static str)
        ensures
            r@ == "显示或更新用户信息，用法：profile show | profile update [--email <email>] [--gender <gender>] [--birthday <YYYY-MM-DD>]"@,
    {
        "显示或更新用户信息，用法：profile show | profile update [--email <email>] [--gender <gender>] [--birthday <YYYY-MM-DD>]"
    }
}

/// Shows the working directory.
#[derive(Clone, Copy, Debug)]
pub struct PwdCommand;

impl PwdCommand {
    /// The command.
    pub fn new() -> (c: Self) {
        PwdCommand
    }

    /// The word that calls the command.
    pub fn name(&self) -> (r: &'static str)
        ensures
            r@ == "pwd"@,
    {
        "pwd"
    }

    /// One line on what the command does and how it is called.
    pub fn description(&self) -> (r: &'static str)
        ensures
            r@ == "显示当前工作目录，用法：pwd"@,
    {
        "显示当前工作目录，用法：pwd"
    }
}

/// Registers a new user.
#[derive(Clone, Copy, Debug)]
pub struct RegisterCommand;

impl RegisterCommand {
    /// The command.
    pub fn new() -> (c: Self) {
        RegisterCommand
    }

    /// The word that calls the command.
    pub fn name(&self) -> (r: &'static str)
        ensures
            r@ == "register"@,
    {
        "register"
    }

    /// One line on what the command does and how it is called.
    pub fn description(&self) -> (r: &'static str)
        ensures
            r@ == "注册新用户，用法：register <username> <password> --confirm <password> --captcha <code> [--show]"@,
    {
        "注册新用户，用法：register <username> <password> --confirm <password> --captcha <code> [--show]"
    }
}

} // verus!
