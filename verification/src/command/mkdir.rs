use vstd::prelude::*;
use vstd::string::*;
use crate::command::handlers::MkdirCommand;
use crate::command::register::texts;
use crate::command::session::same_text;
use crate::path_normalizer::{deep, split, trim_slashes};
use crate::text::{append_chars, from_chars, to_chars};

verus! {

/// What `mkdir` was asked to do.
#[derive(Debug)]
pub struct MkdirRequest {
    pub recursive: bool,
    pub dir_name: String,
}

/// What a `mkdir` command line asks for, as the flag for creating the
/// directories on the way and the name, or the complaint about it.
pub open spec fn mkdir_request(args: Seq<Seq<char>>) -> Result<(bool, Seq<char>), Seq<char>> {
    if args.len() < 2 {
        Err("用法：mkdir [-p] <目录名>"@)
    } else if args[1] == "-p"@ {
        if args.len() < 3 {
            Err("用法：mkdir -p <目录名>"@)
        } else {
            Ok((true, args[2]))
        }
    } else {
        Ok((false, args[1]))
    }
}

/// One directory that `mkdir -p` looks for and creates where it is missing:
/// the path, and the working directory that the path is resolved against.
#[derive(Debug)]
pub struct MkdirStep {
    pub path: String,
    pub cwd: String,
}

/// `stack` with `piece` behind it, unless `piece` is empty.
pub open spec fn keep_piece(stack: Seq<Seq<char>>, piece: Seq<char>) -> Seq<Seq<char>> {
    if piece.len() == 0 {
        stack
    } else {
        stack.push(piece)
    }
}

/// Those of `pieces` that are not empty, in order.
pub open spec fn filled(pieces: Seq<Seq<char>>) -> Seq<Seq<char>>
    decreases pieces.len(),
{
    if pieces.len() == 0 {
        Seq::<Seq<char>>::empty()
    } else {
        keep_piece(filled(pieces.drop_last()), pieces.last())
    }
}

/// `path` with `part` below it.
pub open spec fn below(path: Seq<char>, part: Seq<char>) -> Seq<char> {
    if path == seq!['/'] {
        path + part
    } else {
        path + seq!['/'] + part
    }
}

/// The steps for the first `n` of `parts`, in order: the first has the path
/// one part below `start` and is resolved against `cwd`; each later one has
/// the path one part below that of the step before it, and is resolved
/// against that path.
pub open spec fn mkdir_steps(
    parts: Seq<Seq<char>>,
    start: Seq<char>,
    cwd: Seq<char>,
    n: int,
) -> Seq<(Seq<char>, Seq<char>)>
    decreases n,
{
    if n <= 0 {
        Seq::<(Seq<char>, Seq<char>)>::empty()
    } else {
        let before = mkdir_steps(parts, start, cwd, n - 1);
        if n == 1 {
            before.push((below(start, parts[0]), cwd))
        } else {
            before.push((below(before.last().0, parts[n - 1]), before.last().0))
        }
    }
}

/// The steps of `mkdir -p` for `dir_name`: from the root where the name
/// begins with a slash, else from the working directory `cwd`.
pub open spec fn mkdir_plan(dir_name: Seq<char>, cwd: Seq<char>) -> Seq<(Seq<char>, Seq<char>)> {
    let parts = filled(split(dir_name));
    if dir_name.len() > 0 && dir_name[0] == '/' {
        mkdir_steps(parts, seq!['/'], seq!['/'], parts.len() as int)
    } else {
        mkdir_steps(parts, trim_slashes(cwd), cwd, parts.len() as int)
    }
}

/// The steps as pairs of path and working directory.
pub open spec fn step_views(steps: Seq<MkdirStep>) -> Seq<(Seq<char>, Seq<char>)> {
    Seq::new(steps.len(), |i: int| (steps[i].path@, steps[i].cwd@))
}

/// The pieces of `s` between its slashes that are not empty.
fn filled_pieces(s: &Vec<char>) -> (out: Vec<Vec<char>>)
    ensures
        deep(out@) == filled(split(s@)),
{
    let mut out: Vec<Vec<char>> = Vec::new();
    let mut cur: Vec<char> = Vec::new();
    let mut i: usize = 0;
    proof {
        assert(s@.take(0) =~= Seq::<char>::empty());
        assert(split(s@.take(0)).drop_last() =~= Seq::<Seq<char>>::empty());
        assert(deep(out@) =~= Seq::<Seq<char>>::empty());
    }
    while i < s.len()
        invariant
            i <= s.len(),
            split(s@.take(i as int)).len() >= 1,
            deep(out@) == filled(split(s@.take(i as int)).drop_last()),
            cur@ == split(s@.take(i as int)).last(),
        decreases s.len() - i,
    {
        let c = s[i];
        proof {
            let next = s@.take(i + 1);
            assert(next.drop_last() =~= s@.take(i as int));
            assert(next.last() == c);
            let before = split(s@.take(i as int));
            if c == '/' {
                assert(split(next) == before.push(Seq::<char>::empty()));
                assert(split(next).drop_last() =~= before);
            } else {
                assert(split(next) == before.update(before.len() - 1, before.last().push(c)));
                assert(split(next).drop_last() =~= before.drop_last());
            }
        }
        if c == '/' {
            if cur.len() > 0 {
                let ghost held = deep(out@);
                out.push(cur);
                assert(deep(out@) =~= held.push(cur@));
            }
            cur = Vec::new();
        } else {
            cur.push(c);
        }
        i += 1;
    }
    proof {
        assert(s@.take(s.len() as int) =~= s@);
    }
    if cur.len() > 0 {
        let ghost held = deep(out@);
        out.push(cur);
        assert(deep(out@) =~= held.push(cur@));
    }
    out
}

impl MkdirCommand {
    /// Reads a `mkdir` command line, whose first word is the command.
    pub fn parse(&self, args: &Vec<String>) -> (r: Result<MkdirRequest, String>)
        ensures
            match r {
                Ok(request) => mkdir_request(texts(args@)) == Ok::<(bool, Seq<char>), Seq<char>>(
                    (request.recursive, request.dir_name@),
                ),
                Err(complaint) => mkdir_request(texts(args@)) == Err::<
                    (bool, Seq<char>),
                    Seq<char>,
                >(complaint@),
            },
    {
        if args.len() < 2 {
            return Err("用法：mkdir [-p] <目录名>".to_owned());
        }
        assert(texts(args@)[1] == args@[1]@);
        if same_text(args[1].as_str(), "-p") {
            if args.len() < 3 {
                return Err("用法：mkdir -p <目录名>".to_owned());
            }
            assert(texts(args@)[2] == args@[2]@);
            return Ok(MkdirRequest { recursive: true, dir_name: args[2].clone() });
        }
        Ok(MkdirRequest { recursive: false, dir_name: args[1].clone() })
    }

    /// The directories that `mkdir -p` goes through for `dir_name`, from the
    /// first to the deepest, for a requester whose working directory is `cwd`.
    pub fn plan(&self, dir_name: &str, cwd: &str) -> (steps: Vec<MkdirStep>)
        ensures
            step_views(steps@) == mkdir_plan(dir_name@, cwd@),
    {
        let name = to_chars(dir_name);
        let parts = filled_pieces(&name);
        let ghost pieces = deep(parts@);
        let mut full: Vec<char> = Vec::new();
        let mut parent: Vec<char> = Vec::new();
        if name.len() > 0 && name[0] == '/' {
            full.push('/');
            parent.push('/');
            assert(full@ =~= seq!['/']);
            assert(parent@ =~= seq!['/']);
        } else {
            let whole = to_chars(cwd);
            let mut n: usize = whole.len();
            assert(whole@.take(n as int) =~= whole@);
            while n > 0 && whole[n - 1] == '/'
                invariant
                    n <= whole.len(),
                    trim_slashes(whole@) == trim_slashes(whole@.take(n as int)),
                decreases n,
            {
                assert(whole@.take(n as int).drop_last() =~= whole@.take(n - 1));
                n -= 1;
            }
            let mut k: usize = 0;
            while k < n
                invariant
                    k <= n <= whole.len(),
                    full@ == whole@.take(k as int),
                decreases n - k,
            {
                full.push(whole[k]);
                k += 1;
                assert(whole@.take(k as int) =~= whole@.take(k - 1).push(whole@[k - 1]));
            }
            parent = whole;
        }
        let ghost start = full@;
        let ghost first_cwd = parent@;
        let mut steps: Vec<MkdirStep> = Vec::new();
        let mut i: usize = 0;
        assert(step_views(steps@) =~= mkdir_steps(pieces, start, first_cwd, 0));
        while i < parts.len()
            invariant
                i <= parts.len(),
                pieces == deep(parts@),
                step_views(steps@) == mkdir_steps(pieces, start, first_cwd, i as int),
                i == 0 ==> full@ == start && parent@ == first_cwd,
                i > 0 ==> steps@.len() > 0 && full@ == steps@.last().path@ && parent@
                    == steps@.last().path@,
                steps@.len() == i,
            decreases parts.len() - i,
        {
            let ghost before = step_views(steps@);
            let ghost base = full@;
            let at_root = full.len() == 1 && full[0] == '/';
            proof {
                if at_root {
                    assert(full@ =~= seq!['/']);
                }
                if full@ == seq!['/'] {
                    assert(full@.len() == 1 && full@[0] == '/');
                }
            }
            if !at_root {
                full.push('/');
            }
            append_chars(&mut full, &parts[i]);
            proof {
                assert(pieces[i as int] == parts@[i as int]@);
                assert(full@ =~= below(base, pieces[i as int]));
                if i > 0 {
                    assert(before.last().0 == base);
                }
            }
            let step = MkdirStep { path: from_chars(&full), cwd: from_chars(&parent) };
            steps.push(step);
            assert(step_views(steps@) =~= before.push((full@, parent@)));
            parent = to_chars(steps[i].path.as_str());
            i += 1;
        }
        steps
    }
}

} // verus!
