use vstd::prelude::*;
use vstd::string::*;
use crate::auth::Claims;
use crate::model::{Role, User, UserView};
use crate::text::{same_chars, to_chars};

verus! {

/// Whether the two strings hold the same characters.
pub fn same_text(a: &str, b: &str) -> (r: bool)
    ensures
        r == (a@ == b@),
{
    same_chars(&to_chars(a), &to_chars(b))
}

/// Whether a command is only for a requester who has logged in.
pub open spec fn requires_auth_spec(command: Seq<char>) -> bool {
    command == "profile"@ || command == "logout"@ || command == "id"@ || command == "ls"@
        || command == "pwd"@ || command == "mkdir"@ || command == "rm"@ || command == "mv"@
}

/// Whether a command is only for a requester who has logged in: such a
/// command is given the bearer token, any other the session identifier.
pub fn requires_auth(command: &str) -> (r: bool)
    ensures
        r == requires_auth_spec(command@),
{
    same_text(command, "profile") || same_text(command, "logout") || same_text(command, "id")
        || same_text(command, "ls") || same_text(command, "pwd") || same_text(command, "mkdir")
        || same_text(command, "rm") || same_text(command, "mv")
}

/// The role that a stored role name stands for: `admin` is the
/// administrator, `user` an author, anything else a guest.
pub open spec fn role_of(stored: Seq<char>) -> Role {
    if stored == "admin"@ {
        Role::Admin
    } else if stored == "user"@ {
        Role::Author
    } else {
        Role::Guest
    }
}

/// The role that a stored role name stands for.
pub fn role_from_name(stored: &str) -> (r: Role)
    ensures
        r == role_of(stored@),
{
    if same_text(stored, "admin") {
        Role::Admin
    } else if same_text(stored, "user") {
        Role::Author
    } else {
        Role::Guest
    }
}

/// The working directory of a requester: the home directory of the user,
/// or that of the guests for one who has not logged in, with a slash at the
/// end.
pub open spec fn home_cwd_spec(username: Option<Seq<char>>) -> Seq<char> {
    match username {
        Some(name) => "/home/"@ + name + "/"@,
        None => "/home/guest/"@,
    }
}

/// The working directory of a requester.
pub fn home_cwd(username: Option<&str>) -> (r: String)
    ensures
        r@ == home_cwd_spec(
            match username {
                Some(name) => Some(name@),
                None => None,
            },
        ),
{
    match username {
        Some(name) => {
            let mut cwd = "/home/".to_owned();
            cwd.append(name);
            cwd.append("/");
            cwd
        },
        None => "/home/guest/".to_owned(),
    }
}

/// `path` with a slash in front of it, unless it begins with one.
pub open spec fn rooted_spec(path: Seq<char>) -> Seq<char> {
    if path.len() > 0 && path[0] == '/' {
        path
    } else {
        seq!['/'] + path
    }
}

/// Makes a path from a request begin at the root.
pub fn rooted(path: &str) -> (r: String)
    ensures
        r@ == rooted_spec(path@),
{
    let chars = to_chars(path);
    if chars.len() > 0 && chars[0] == '/' {
        return path.to_owned();
    }
    let mut out = String::new();
    out.push('/');
    out.append(path);
    assert(out@ =~= seq!['/'] + path@);
    out
}

/// The requester that the claims of a token stand for.
pub fn requester(claims: &Claims) -> (user: User)
    ensures
        user@ == (UserView {
            id: claims.id@,
            username: claims.username@,
            roles: seq![role_of(claims.role@)],
        }),
{
    let mut roles: Vec<Role> = Vec::new();
    roles.push(role_from_name(claims.role.as_str()));
    assert(roles@ =~= seq![role_of(claims.role@)]);
    User { id: claims.id.clone(), username: claims.username.clone(), roles }
}

} // verus!
