use vstd::prelude::*;
use crate::model::VfsError;
use crate::text::{append_chars, from_chars, to_chars};

verus! {

/// `s` with every backslash replaced by a forward slash.
pub open spec fn unify(s: Seq<char>) -> Seq<char> {
    Seq::new(s.len(), |i: int| if s[i] == '\\' { '/' } else { s[i] })
}

/// The pieces of `s` between its slashes, in order. There is always one piece
/// more than there are slashes, so pieces may be empty.
pub open spec fn split(s: Seq<char>) -> Seq<Seq<char>>
    decreases s.len(),
{
    if s.len() == 0 {
        seq![Seq::<char>::empty()]
    } else {
        let before = split(s.drop_last());
        if s.last() == '/' {
            before.push(Seq::<char>::empty())
        } else {
            before.update(before.len() - 1, before.last().push(s.last()))
        }
    }
}

/// The component `.`.
pub open spec fn dot() -> Seq<char> {
    seq!['.']
}

/// The component `..`.
pub open spec fn dot_dot() -> Seq<char> {
    seq!['.', '.']
}

/// The component stack after one more component: empty components and `.`
/// change nothing, `..` drops the last component if there is one, and any
/// other component is stacked.
pub open spec fn step(stack: Seq<Seq<char>>, comp: Seq<char>) -> Seq<Seq<char>> {
    if comp.len() == 0 || comp == dot() {
        stack
    } else if comp == dot_dot() {
        if stack.len() > 0 {
            stack.drop_last()
        } else {
            stack
        }
    } else {
        stack.push(comp)
    }
}

/// The component stack after the components `comps`, taken from left to right.
pub open spec fn resolve(stack: Seq<Seq<char>>, comps: Seq<Seq<char>>) -> Seq<Seq<char>>
    decreases comps.len(),
{
    if comps.len() == 0 {
        stack
    } else {
        step(resolve(stack, comps.drop_last()), comps.last())
    }
}

/// Every component of `stack` with a slash in front of it.
pub open spec fn join(stack: Seq<Seq<char>>) -> Seq<char>
    decreases stack.len(),
{
    if stack.len() == 0 {
        Seq::<char>::empty()
    } else {
        join(stack.drop_last()) + seq!['/'] + stack.last()
    }
}

/// The canonical path of a component stack: `/` for the empty stack.
pub open spec fn render(stack: Seq<Seq<char>>) -> Seq<char> {
    if stack.len() == 0 {
        seq!['/']
    } else {
        join(stack)
    }
}

/// The component stack that `raw` addresses when the working directory is `cwd`.
pub open spec fn resolved_stack(raw: Seq<char>, cwd: Seq<char>) -> Seq<Seq<char>> {
    let r = unify(raw);
    let base = if r.len() > 0 && r[0] == '/' {
        Seq::<Seq<char>>::empty()
    } else {
        resolve(Seq::<Seq<char>>::empty(), split(unify(cwd)))
    };
    resolve(base, split(r))
}

/// The canonical absolute path that `raw` addresses when the working directory
/// is `cwd`.
pub open spec fn normalize_spec(raw: Seq<char>, cwd: Seq<char>) -> Seq<char> {
    render(resolved_stack(raw, cwd))
}

/// `s` without the slashes at its end.
pub open spec fn trim_slashes(s: Seq<char>) -> Seq<char>
    decreases s.len(),
{
    if s.len() > 0 && s.last() == '/' {
        trim_slashes(s.drop_last())
    } else {
        s
    }
}

/// The position of the last slash of `s`.
pub open spec fn last_slash(s: Seq<char>) -> Option<int>
    decreases s.len(),
{
    if s.len() == 0 {
        None
    } else if s.last() == '/' {
        Some(s.len() - 1)
    } else {
        last_slash(s.drop_last())
    }
}

/// The parent directory of `path`: none where nothing but slashes is there,
/// else what stands before the last slash of the path without its trailing
/// slashes, or the root where nothing stands before it.
pub open spec fn parent_spec(path: Seq<char>) -> Option<Seq<char>> {
    let p = trim_slashes(unify(path));
    if p.len() == 0 {
        None
    } else {
        match last_slash(p) {
            Some(i) => if i > 0 {
                Some(p.take(i))
            } else {
                Some(seq!['/'])
            },
            None => Some(seq!['/']),
        }
    }
}

/// What stands behind the last slash of `path`; the whole of it where it has
/// no slash.
pub open spec fn basename_spec(path: Seq<char>) -> Seq<char> {
    let p = unify(path);
    match last_slash(p) {
        Some(i) => p.skip(i + 1),
        None => p,
    }
}

/// The views of the components of an executable stack.
pub open spec fn deep(stack: Seq<Vec<char>>) -> Seq<Seq<char>> {
    Seq::new(stack.len(), |i: int| stack[i]@)
}

/// A component that resolution keeps as it is: not empty, free of slashes and
/// backslashes, and neither `.` nor `..`.
pub open spec fn is_plain(comp: Seq<char>) -> bool {
    &&& comp.len() > 0
    &&& !comp.contains('/')
    &&& !comp.contains('\\')
    &&& comp != dot()
    &&& comp != dot_dot()
}

/// Whether every component of the stack is plain.
pub open spec fn all_plain(stack: Seq<Seq<char>>) -> bool {
    forall|i: int| 0 <= i < stack.len() ==> is_plain(#[trigger] stack[i])
}

/// A split has at least one piece.
pub proof fn lemma_split_nonempty(s: Seq<char>)
    ensures
        split(s).len() >= 1,
    decreases s.len(),
{
    if s.len() > 0 {
        lemma_split_nonempty(s.drop_last());
    }
}

/// No piece of a split holds a slash, and no piece holds a backslash where
/// the text holds none.
pub proof fn lemma_split_pieces(s: Seq<char>)
    ensures
        split(s).len() >= 1,
        forall|i: int| 0 <= i < split(s).len() ==> !(#[trigger] split(s)[i]).contains('/'),
        !s.contains('\\') ==> forall|i: int|
            0 <= i < split(s).len() ==> !(#[trigger] split(s)[i]).contains('\\'),
    decreases s.len(),
{
    if s.len() > 0 {
        let init = s.drop_last();
        lemma_split_pieces(init);
        let before = split(init);
        if !s.contains('\\') {
            assert forall|k: int| 0 <= k < init.len() implies init[k] != '\\' by {
                assert(s[k] == init[k]);
                assert(s.contains(s[k]));
            }
            assert(!init.contains('\\'));
            assert(s.contains(s.last()));
        }
        if s.last() != '/' {
            let grown = before.last().push(s.last());
            assert forall|c: char| grown.contains(c) implies c == s.last()
                || before.last().contains(c) by {
                let k = choose|k: int| 0 <= k < grown.len() && grown[k] == c;
                if k < before.last().len() {
                    assert(before.last()[k] == c);
                }
            }
        }
    }
}

/// A text without backslashes stays as it is.
pub proof fn lemma_unify_fixed(s: Seq<char>)
    requires
        !s.contains('\\'),
    ensures
        unify(s) == s,
{
    assert forall|i: int| 0 <= i < s.len() implies unify(s)[i] == s[i] by {
        assert(s.contains(s[i]));
    }
    assert(unify(s) =~= s);
}

/// Resolution keeps a stack of plain components plain.
pub proof fn lemma_resolve_plain(stack: Seq<Seq<char>>, comps: Seq<Seq<char>>)
    requires
        all_plain(stack),
        forall|i: int| 0 <= i < comps.len() ==> !(#[trigger] comps[i]).contains('/'),
        forall|i: int| 0 <= i < comps.len() ==> !(#[trigger] comps[i]).contains('\\'),
    ensures
        all_plain(resolve(stack, comps)),
    decreases comps.len(),
{
    if comps.len() > 0 {
        let init = comps.drop_last();
        assert forall|i: int| 0 <= i < init.len() implies !(#[trigger] init[i]).contains('/') by {
            assert(init[i] == comps[i]);
        }
        assert forall|i: int| 0 <= i < init.len() implies !(#[trigger] init[i]).contains('\\') by {
            assert(init[i] == comps[i]);
        }
        lemma_resolve_plain(stack, init);
        let before = resolve(stack, init);
        let after = step(before, comps.last());
        assert(!comps[comps.len() - 1].contains('/'));
        assert(!comps[comps.len() - 1].contains('\\'));
        assert forall|i: int| 0 <= i < after.len() implies is_plain(#[trigger] after[i]) by {
            if i < before.len() {
                assert(is_plain(before[i]));
            }
        }
    }
}

/// Appending text without a slash only lengthens the last piece.
pub proof fn lemma_split_append(a: Seq<char>, b: Seq<char>)
    requires
        !b.contains('/'),
    ensures
        split(a).len() >= 1,
        split(a + b) == split(a).update(split(a).len() - 1, split(a).last() + b),
    decreases b.len(),
{
    lemma_split_nonempty(a);
    if b.len() == 0 {
        assert(a + b =~= a);
        assert(split(a).last() + b =~= split(a).last());
        assert(split(a).update(split(a).len() - 1, split(a).last()) =~= split(a));
    } else {
        let b0 = b.drop_last();
        assert forall|k: int| 0 <= k < b0.len() implies b0[k] != '/' by {
            assert(b[k] == b0[k]);
            assert(b.contains(b[k]));
        }
        assert(!b0.contains('/'));
        lemma_split_append(a, b0);
        assert((a + b).drop_last() =~= a + b0);
        assert((a + b).last() == b.last());
        assert(b.contains(b.last()));
        let p = split(a);
        let q = split(a + b0);
        assert(q.last() == p.last() + b0);
        assert((p.last() + b0).push(b.last()) =~= p.last() + b);
        assert(q.update(q.len() - 1, q.last().push(b.last())) =~= p.update(
            p.len() - 1,
            p.last() + b,
        ));
    }
}

/// Splitting the joined form of slash-free components gives the components
/// back, behind one empty piece.
pub proof fn lemma_split_join(stack: Seq<Seq<char>>)
    requires
        forall|i: int| 0 <= i < stack.len() ==> !(#[trigger] stack[i]).contains('/'),
    ensures
        split(join(stack)) == seq![Seq::<char>::empty()] + stack,
    decreases stack.len(),
{
    if stack.len() == 0 {
        assert(seq![Seq::<char>::empty()] + stack =~= seq![Seq::<char>::empty()]);
    } else {
        let init = stack.drop_last();
        assert forall|i: int| 0 <= i < init.len() implies !(#[trigger] init[i]).contains('/') by {
            assert(init[i] == stack[i]);
        }
        lemma_split_join(init);
        let head = join(init) + seq!['/'];
        assert(head.drop_last() =~= join(init));
        assert(head.last() == '/');
        assert(split(head) == split(join(init)).push(Seq::<char>::empty()));
        assert(!stack[stack.len() - 1].contains('/'));
        lemma_split_append(head, stack.last());
        assert(Seq::<char>::empty() + stack.last() =~= stack.last());
        assert(split(join(stack)) =~= seq![Seq::<char>::empty()] + stack);
    }
}

/// Resolving plain components from the empty stack stacks them all.
pub proof fn lemma_resolve_plain_components(stack: Seq<Seq<char>>)
    requires
        all_plain(stack),
    ensures
        resolve(Seq::<Seq<char>>::empty(), seq![Seq::<char>::empty()] + stack) == stack,
    decreases stack.len(),
{
    let lead = seq![Seq::<char>::empty()];
    if stack.len() == 0 {
        assert(lead + stack =~= lead);
        assert(lead.drop_last() =~= Seq::<Seq<char>>::empty());
        assert(resolve(Seq::<Seq<char>>::empty(), lead.drop_last()) == Seq::<Seq<char>>::empty());
        assert(resolve(Seq::<Seq<char>>::empty(), lead) =~= stack);
    } else {
        let init = stack.drop_last();
        assert forall|i: int| 0 <= i < init.len() implies is_plain(#[trigger] init[i]) by {
            assert(init[i] == stack[i]);
        }
        lemma_resolve_plain_components(init);
        assert((lead + stack).drop_last() =~= lead + init);
        assert((lead + stack).last() == stack.last());
        assert(is_plain(stack[stack.len() - 1]));
        assert(init.push(stack.last()) =~= stack);
    }
}

/// The joined form of components without backslashes holds none, and
/// begins with a slash where there is a component.
pub proof fn lemma_join_chars(stack: Seq<Seq<char>>)
    requires
        forall|i: int| 0 <= i < stack.len() ==> !(#[trigger] stack[i]).contains('\\'),
    ensures
        !join(stack).contains('\\'),
        stack.len() > 0 ==> join(stack).len() > 0 && join(stack)[0] == '/',
    decreases stack.len(),
{
    if stack.len() > 0 {
        let init = stack.drop_last();
        assert forall|i: int| 0 <= i < init.len() implies !(#[trigger] init[i]).contains('\\') by {
            assert(init[i] == stack[i]);
        }
        lemma_join_chars(init);
        let j = join(stack);
        assert(!stack[stack.len() - 1].contains('\\'));
        assert forall|k: int| 0 <= k < j.len() implies j[k] != '\\' by {
            if k < join(init).len() {
                assert(join(init).contains(join(init)[k]));
            } else if k > join(init).len() {
                let m = k - join(init).len() - 1;
                assert(stack.last().contains(stack.last()[m]));
            }
        }
    }
}

/// The stack that `normalize` renders holds plain components only.
pub proof fn lemma_resolved_stack_plain(raw: Seq<char>, cwd: Seq<char>)
    ensures
        all_plain(resolved_stack(raw, cwd)),
{
    let r = unify(raw);
    let c = unify(cwd);
    lemma_split_pieces(r);
    lemma_split_pieces(c);
    let none = Seq::<Seq<char>>::empty();
    lemma_resolve_plain(none, split(c));
    if r.len() > 0 && r[0] == '/' {
        lemma_resolve_plain(none, split(r));
    } else {
        lemma_resolve_plain(resolve(none, split(c)), split(r));
    }
}

/// Normalizing a canonical path against the root gives the same path: a
/// second normalization changes nothing.
pub proof fn lemma_normalize_idempotent(raw: Seq<char>, cwd: Seq<char>)
    ensures
        normalize_spec(normalize_spec(raw, cwd), seq!['/']) == normalize_spec(raw, cwd),
{
    let stack = resolved_stack(raw, cwd);
    lemma_resolved_stack_plain(raw, cwd);
    let out = render(stack);
    let none = Seq::<Seq<char>>::empty();
    let nil = Seq::<char>::empty();
    if stack.len() == 0 {
        assert(unify(out) =~= out);
        assert(out.drop_last() =~= nil);
        assert(split(nil) == seq![nil]);
        assert(split(out) == seq![nil].push(nil));
        let pieces = split(out);
        assert(pieces.drop_last() =~= seq![nil]);
        assert(seq![nil].drop_last() =~= none);
        assert(resolve(none, none) == none);
        assert(resolve(none, seq![nil]) == none);
        assert(resolve(none, pieces) == none);
    } else {
        assert forall|i: int| 0 <= i < stack.len() implies !(#[trigger] stack[i]).contains('\\')
            && !stack[i].contains('/') by {
            assert(is_plain(stack[i]));
        }
        lemma_join_chars(stack);
        lemma_unify_fixed(out);
        lemma_split_join(stack);
        lemma_resolve_plain_components(stack);
    }
}

/// The characters of `v` with each backslash turned into a slash.
fn unify_chars(v: &Vec<char>) -> (out: Vec<char>)
    ensures
        out@ == unify(v@),
{
    let mut out: Vec<char> = Vec::new();
    let mut i: usize = 0;
    while i < v.len()
        invariant
            i <= v.len(),
            out@.len() == i,
            forall|k: int| 0 <= k < i ==> out@[k] == unify(v@)[k],
        decreases v.len() - i,
    {
        let c = v[i];
        if c == '\\' {
            out.push('/');
        } else {
            out.push(c);
        }
        i += 1;
    }
    assert(out@ =~= unify(v@));
    out
}

/// Takes one component into the stack.
fn take_component(stack: &mut Vec<Vec<char>>, comp: Vec<char>)
    ensures
        deep(final(stack)@) == step(deep(old(stack)@), comp@),
{
    if comp.len() == 0 {
        return ;
    }
    if comp.len() == 1 && comp[0] == '.' {
        assert(comp@ =~= dot());
        return ;
    }
    if comp.len() == 2 && comp[0] == '.' && comp[1] == '.' {
        assert(comp@ =~= dot_dot());
        if stack.len() > 0 {
            stack.pop();
            assert(deep(stack@) =~= deep(old(stack)@).drop_last());
        }
        return ;
    }
    assert(comp@ != dot()) by {
        if comp@ == dot() {
            assert(comp@.len() == 1 && comp@[0] == '.');
        }
    }
    assert(comp@ != dot_dot()) by {
        if comp@ == dot_dot() {
            assert(comp@.len() == 2 && comp@[0] == '.' && comp@[1] == '.');
        }
    }
    stack.push(comp);
    assert(deep(stack@) =~= deep(old(stack)@).push(comp@));
}

/// Takes the components of `s` into the stack, from left to right.
fn take_path(stack: &mut Vec<Vec<char>>, s: &Vec<char>)
    ensures
        deep(final(stack)@) == resolve(deep(old(stack)@), split(s@)),
{
    let ghost base = deep(stack@);
    let mut cur: Vec<char> = Vec::new();
    let mut i: usize = 0;
    proof {
        assert(s@.take(0) =~= Seq::<char>::empty());
        assert(split(s@.take(0)).drop_last() =~= Seq::<Seq<char>>::empty());
    }
    while i < s.len()
        invariant
            i <= s.len(),
            split(s@.take(i as int)).len() >= 1,
            deep(stack@) == resolve(base, split(s@.take(i as int)).drop_last()),
            cur@ == split(s@.take(i as int)).last(),
        decreases s.len() - i,
    {
        let c = s[i];
        proof {
            let next = s@.take(i + 1);
            assert(next.drop_last() =~= s@.take(i as int));
            assert(next.last() == c);
            let before = split(s@.take(i as int));
            if c == '/' {
                assert(split(next) == before.push(Seq::<char>::empty()));
                assert(split(next).drop_last() =~= before);
            } else {
                assert(split(next) == before.update(before.len() - 1, before.last().push(c)));
                assert(split(next).drop_last() =~= before.drop_last());
            }
        }
        if c == '/' {
            take_component(stack, cur);
            cur = Vec::new();
        } else {
            cur.push(c);
        }
        i += 1;
    }
    proof {
        assert(s@.take(s.len() as int) =~= s@);
    }
    take_component(stack, cur);
}

/// The canonical path of the stack, as characters.
fn render_chars(stack: &Vec<Vec<char>>) -> (out: Vec<char>)
    ensures
        out@ == render(deep(stack@)),
{
    let mut out: Vec<char> = Vec::new();
    if stack.len() == 0 {
        out.push('/');
        assert(out@ =~= seq!['/']);
        return out;
    }
    let mut i: usize = 0;
    while i < stack.len()
        invariant
            i <= stack.len(),
            out@ == join(deep(stack@).take(i as int)),
        decreases stack.len() - i,
    {
        proof {
            let upto = deep(stack@).take(i + 1);
            assert(upto.drop_last() =~= deep(stack@).take(i as int));
            assert(upto.last() == stack@[i as int]@);
        }
        out.push('/');
        append_chars(&mut out, &stack[i]);
        i += 1;
    }
    assert(deep(stack@).take(stack.len() as int) =~= deep(stack@));
    out
}

/// Resolves paths. It holds no state.
pub struct PathNormalizer;

impl PathNormalizer {
    /// Turns a raw path, relative to `cwd` unless it begins with a slash,
    /// into the canonical absolute path: `/a/b/c`, with no slash at the end
    /// but for the root. It never fails.
    pub fn normalize(raw: &str, cwd: &str) -> (r: Result<String, VfsError>)
        ensures
            r is Ok,
            r->Ok_0@ == normalize_spec(raw@, cwd@),
    {
        let raw_chars = unify_chars(&to_chars(raw));
        let mut stack: Vec<Vec<char>> = Vec::new();
        assert(deep(stack@) =~= Seq::<Seq<char>>::empty());
        if !(raw_chars.len() > 0 && raw_chars[0] == '/') {
            let cwd_chars = unify_chars(&to_chars(cwd));
            take_path(&mut stack, &cwd_chars);
        }
        take_path(&mut stack, &raw_chars);
        let out = render_chars(&stack);
        Ok(from_chars(&out))
    }

    /// The parent directory of `path`, without a slash at its end; the root
    /// has none.
    pub fn parent(path: &str) -> (r: Option<String>)
        ensures
            r is Some <==> parent_spec(path@) is Some,
            r is Some ==> r->Some_0@ == parent_spec(path@)->Some_0,
    {
        let p = unify_chars(&to_chars(path));
        let mut n: usize = p.len();
        assert(p@.take(n as int) =~= p@);
        while n > 0 && p[n - 1] == '/'
            invariant
                n <= p.len(),
                trim_slashes(p@) == trim_slashes(p@.take(n as int)),
            decreases n,
        {
            assert(p@.take(n as int).drop_last() =~= p@.take(n - 1));
            n -= 1;
        }
        if n == 0 {
            return None;
        }
        let ghost trimmed = p@.take(n as int);
        assert(trim_slashes(p@) == trimmed);
        assert(trimmed.take(n as int) =~= trimmed);
        let mut j: usize = n;
        while j > 0 && p[j - 1] != '/'
            invariant
                j <= n <= p.len(),
                trimmed == p@.take(n as int),
                last_slash(trimmed) == last_slash(trimmed.take(j as int)),
            decreases j,
        {
            assert(trimmed.take(j as int).drop_last() =~= trimmed.take(j - 1));
            j -= 1;
        }
        if j <= 1 {
            let mut root = String::new();
            root.push('/');
            assert(root@ =~= seq!['/']);
            return Some(root);
        }
        let mut out: Vec<char> = Vec::new();
        let mut k: usize = 0;
        while k < j - 1
            invariant
                k <= j - 1,
                j <= n <= p.len(),
                out@ == p@.take(k as int),
            decreases j - 1 - k,
        {
            out.push(p[k]);
            k += 1;
            assert(p@.take(k as int) =~= p@.take(k - 1).push(p@[k - 1]));
        }
        assert(p@.take(j - 1) =~= trimmed.take(j - 1));
        Some(from_chars(&out))
    }

    /// The last component of `path`: what stands behind its last slash.
    pub fn basename(path: &str) -> (r: Option<String>)
        ensures
            r is Some,
            r->Some_0@ == basename_spec(path@),
    {
        let p = unify_chars(&to_chars(path));
        let mut j: usize = p.len();
        assert(p@.take(j as int) =~= p@);
        while j > 0 && p[j - 1] != '/'
            invariant
                j <= p.len(),
                last_slash(p@) == last_slash(p@.take(j as int)),
            decreases j,
        {
            assert(p@.take(j as int).drop_last() =~= p@.take(j - 1));
            j -= 1;
        }
        let mut out: Vec<char> = Vec::new();
        let mut k: usize = j;
        while k < p.len()
            invariant
                j <= k <= p.len(),
                out@ == p@.subrange(j as int, k as int),
            decreases p.len() - k,
        {
            out.push(p[k]);
            k += 1;
            assert(p@.subrange(j as int, k as int) =~= p@.subrange(j as int, k - 1).push(
                p@[k - 1],
            ));
        }
        assert(p@.subrange(j as int, p.len() as int) =~= p@.skip(j as int));
        Some(from_chars(&out))
    }
}


/// The last slash of a text that ends in a slash and a piece without one
/// is the slash before that piece.
pub proof fn lemma_last_slash_before_piece(head: Seq<char>, piece: Seq<char>)
    requires
        !piece.contains('/'),
    ensures
        last_slash(head + seq!['/'] + piece) == Some(head.len() as int),
    decreases piece.len(),
{
    let whole = head + seq!['/'] + piece;
    if piece.len() == 0 {
        assert(whole.last() == '/');
    } else {
        let shorter = piece.drop_last();
        assert forall|k: int| 0 <= k < shorter.len() implies shorter[k] != '/' by {
            assert(piece[k] == shorter[k]);
            assert(piece.contains(piece[k]));
        }
        assert(!shorter.contains('/'));
        assert(piece.contains(piece.last()));
        assert(whole.last() == piece.last());
        assert(whole.drop_last() =~= head + seq!['/'] + shorter);
        lemma_last_slash_before_piece(head, shorter);
    }
}

/// The canonical path of the empty stack, the root, has no parent; that of
/// any other stack of plain components has the canonical path of the stack
/// without its last component for its parent, and the last component for
/// its base name.
pub proof fn lemma_canonical_parent(stack: Seq<Seq<char>>)
    requires
        all_plain(stack),
    ensures
        stack.len() == 0 ==> parent_spec(render(stack)) is None,
        stack.len() > 0 ==> parent_spec(render(stack)) == Some(render(stack.drop_last())),
        stack.len() > 0 ==> basename_spec(render(stack)) == stack.last(),
        stack.len() > 0 ==> trim_slashes(render(stack)) == render(stack),
        stack.len() > 0 ==> last_slash(render(stack)) == Some(
            join(stack.drop_last()).len() as int,
        ),
{
    if stack.len() == 0 {
        let root = seq!['/'];
        assert(unify(root) =~= root);
        assert(root.drop_last() =~= Seq::<char>::empty());
        assert(trim_slashes(root) == trim_slashes(root.drop_last()));
    } else {
        let init = stack.drop_last();
        let last = stack.last();
        let path = join(stack);
        assert(is_plain(stack[stack.len() - 1]));
        assert forall|i: int| 0 <= i < stack.len() implies !(#[trigger] stack[i]).contains('\\') by {
            assert(is_plain(stack[i]));
        }
        assert forall|i: int| 0 <= i < init.len() implies !(#[trigger] init[i]).contains('\\') by {
            assert(init[i] == stack[i]);
        }
        lemma_join_chars(stack);
        lemma_join_chars(init);
        lemma_unify_fixed(path);
        assert(path.last() == last.last());
        assert(last.contains(last.last()));
        assert(trim_slashes(path) == path);
        lemma_last_slash_before_piece(join(init), last);
        let at = join(init).len() as int;
        assert(path.take(at) =~= join(init));
        assert(path.skip(at + 1) =~= last);
    }
}

/// A normalized path has no parent exactly when it is the root.
pub proof fn lemma_normalized_parent(raw: Seq<char>, cwd: Seq<char>)
    ensures
        parent_spec(normalize_spec(raw, cwd)) is None <==> normalize_spec(raw, cwd) == seq!['/'],
        parent_spec(normalize_spec(raw, cwd)) is Some ==> parent_spec(normalize_spec(raw, cwd))
            == Some(render(resolved_stack(raw, cwd).drop_last())),
{
    let stack = resolved_stack(raw, cwd);
    lemma_resolved_stack_plain(raw, cwd);
    lemma_canonical_parent(stack);
    if stack.len() > 0 {
        assert(is_plain(stack[0]));
        let path = join(stack);
        if path == seq!['/'] {
            assert(trim_slashes(path) == path);
            assert(path.drop_last() =~= Seq::<char>::empty());
            assert(path.last() == '/');
        }
    }
}

} // verus!
