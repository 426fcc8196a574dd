use vstd::prelude::*;
use vstd::string::*;
use crate::command::handlers::{CdCommand, LsCommand};
use crate::command::register::texts;
use crate::command::session::{requires_auth, requires_auth_spec, same_text};
use crate::path_normalizer::unify;
use crate::text::{from_chars, to_chars};

verus! {

/// What is to be done with a command line.
#[derive(Debug)]
pub enum Dispatch {
    /// The line has no word.
    Empty,
    /// The description of the named command is asked for.
    Describe(String),
    /// The named command is to run, with the bearer token where
    /// `with_token` is set, else with the session identifier.
    Run { command: String, with_token: bool },
}

/// Mathematical value of a [`Dispatch`].
pub enum DispatchView {
    Empty,
    Describe(Seq<char>),
    Run { command: Seq<char>, with_token: bool },
}

impl View for Dispatch {
    type V = DispatchView;

    open spec fn view(&self) -> DispatchView {
        match self {
            Dispatch::Empty => DispatchView::Empty,
            Dispatch::Describe(name) => DispatchView::Describe(name@),
            Dispatch::Run { command, with_token } => DispatchView::Run {
                command: command@,
                with_token: *with_token,
            },
        }
    }
}

/// What is to be done with the words of a command line: the word
/// `description` with a name behind it asks for that command's description;
/// any other first word names the command to run.
pub open spec fn dispatch_spec(args: Seq<Seq<char>>) -> DispatchView {
    if args.len() == 0 {
        DispatchView::Empty
    } else if args[0] == "description"@ && args.len() > 1 {
        DispatchView::Describe(args[1])
    } else {
        DispatchView::Run { command: args[0], with_token: requires_auth_spec(args[0]) }
    }
}

/// Decides what is to be done with the words of a command line.
pub fn dispatch(args: &Vec<String>) -> (r: Dispatch)
    ensures
        r@ == dispatch_spec(texts(args@)),
{
    if args.len() == 0 {
        return Dispatch::Empty;
    }
    assert(texts(args@)[0] == args@[0]@);
    if same_text(args[0].as_str(), "description") && args.len() > 1 {
        assert(texts(args@)[1] == args@[1]@);
        return Dispatch::Describe(args[1].clone());
    }
    let with_token = requires_auth(args[0].as_str());
    Dispatch::Run { command: args[0].clone(), with_token }
}

impl CdCommand {
    /// The directory that a `cd` command line names, or the usage line
    /// where the line has not exactly one word behind the command.
    pub fn parse(&self, args: &Vec<String>) -> (r: Result<String, String>)
        ensures
            match r {
                Ok(target) => args@.len() == 2 && target@ == args@[1]@,
                Err(usage) => args@.len() != 2 && usage@ == "用法: cd <目录路径>"@,
            },
    {
        if args.len() != 2 {
            return Err("用法: cd <目录路径>".to_owned());
        }
        Ok(args[1].clone())
    }

    /// `path` with every backslash turned into a slash.
    pub fn with_slashes(&self, path: &str) -> (r: String)
        ensures
            r@ == unify(path@),
    {
        let chars = to_chars(path);
        let mut out: Vec<char> = Vec::new();
        let mut i: usize = 0;
        while i < chars.len()
            invariant
                i <= chars.len(),
                chars@ == path@,
                out@.len() == i,
                forall|k: int| 0 <= k < i ==> out@[k] == unify(path@)[k],
            decreases chars.len() - i,
        {
            if chars[i] == '\\' {
                out.push('/');
            } else {
                out.push(chars[i]);
            }
            i += 1;
        }
        assert(out@ =~= unify(path@));
        from_chars(&out)
    }
}

impl LsCommand {
    /// The path that an `ls` command line names: the word behind the
    /// command, or `.` where there is none.
    pub fn target(&self, args: &Vec<String>) -> (r: String)
        ensures
            args@.len() > 1 ==> r@ == args@[1]@,
            args@.len() <= 1 ==> r@ == "."@,
    {
        if args.len() > 1 {
            args[1].clone()
        } else {
            ".".to_owned()
        }
    }
}

} // verus!
