//! Lexical path handling with Unix separators: components, prefix tests,
//! joining, and `..` normalization for user-supplied paths.

use vstd::prelude::*;
use crate::text::{char_index, chars_of, push_all, push_str, split_chars, split_on, string_of, str_eq};

verus! {

/// One component of a path, as `Path::components` yields it.
#[derive(Debug)]
pub enum Component {
    RootDir,
    CurDir,
    ParentDir,
    Normal(String),
}

/// The mathematical value of a [`Component`].
pub enum Comp {
    Root,
    Cur,
    Parent,
    Normal(Seq<char>),
}

impl Component {
    pub open spec fn view(&self) -> Comp {
        match self {
            Component::RootDir => Comp::Root,
            Component::CurDir => Comp::Cur,
            Component::ParentDir => Comp::Parent,
            Component::Normal(s) => Comp::Normal(s@),
        }
    }
}

/// Why a user path cannot be resolved.
#[derive(Debug)]
pub enum PathError {
    Empty,
    NormalizedEmpty,
}

impl PathError {
    /// The error text.
    pub fn message(&self) -> (r: String)
        ensures
            r@ == path_error_text(*self),
    {
        match self {
            PathError::Empty => crate::text::owned("path must not be empty"),
            PathError::NormalizedEmpty => crate::text::owned("path normalized to empty"),
        }
    }
}

pub open spec fn path_error_text(e: PathError) -> Seq<char> {
    match e {
        PathError::Empty => "path must not be empty"@,
        PathError::NormalizedEmpty => "path normalized to empty"@,
    }
}

/// `"."`
pub open spec fn dot() -> Seq<char> {
    seq!['.']
}

/// `".."`
pub open spec fn dotdot() -> Seq<char> {
    seq!['.', '.']
}

/// The components a piece between separators contributes: none for an empty
/// piece or `"."`, `ParentDir` for `".."`, else a normal component.
pub open spec fn piece_comps(p: Seq<char>) -> Seq<Comp> {
    if p.len() == 0 || p == dot() {
        seq![]
    } else if p == dotdot() {
        seq![Comp::Parent]
    } else {
        seq![Comp::Normal(p)]
    }
}

pub open spec fn pieces_comps(ps: Seq<Seq<char>>) -> Seq<Comp>
    decreases ps.len(),
{
    if ps.len() == 0 {
        seq![]
    } else {
        pieces_comps(ps.drop_last()) + piece_comps(ps.last())
    }
}

/// The components of `s` (Unix rules of `Path::components`): a leading `/` is
/// the root, repeated separators and `.` pieces vanish except a leading `.` of
/// a relative path, which is `CurDir`; `..` stays as `ParentDir`.
pub open spec fn components(s: Seq<char>) -> Seq<Comp> {
    let ps = split_on(s, '/');
    if s.len() > 0 && s[0] == '/' {
        seq![Comp::Root] + pieces_comps(ps.drop_first())
    } else if ps[0] == dot() {
        seq![Comp::Cur] + pieces_comps(ps.drop_first())
    } else {
        pieces_comps(ps)
    }
}

/// `base` is a leading part of `path`, component by component (`Path::starts_with`).
pub open spec fn starts_with(path: Seq<char>, base: Seq<char>) -> bool {
    let a = components(path);
    let b = components(base);
    b.len() <= a.len() && a.take(b.len() as int) == b
}

/// Two paths are equal component by component (`Path == Path`).
pub open spec fn same_path(a: Seq<char>, b: Seq<char>) -> bool {
    components(a) == components(b)
}

/// `PathBuf::pop` on components: drops the last one unless nothing or only the root is left.
pub open spec fn pop_comp(out: Seq<Comp>) -> Seq<Comp> {
    if out.len() == 0 || (out.len() == 1 && out[0] == Comp::Root) {
        out
    } else {
        out.drop_last()
    }
}

/// One step of `..` normalization.
pub open spec fn norm_step(out: Seq<Comp>, c: Comp) -> Seq<Comp> {
    match c {
        Comp::Root => seq![Comp::Root],
        Comp::Cur => out,
        Comp::Parent => pop_comp(out),
        Comp::Normal(s) => out.push(Comp::Normal(s)),
    }
}

/// Lexical normalization: `.` dropped, `..` removes the previous component.
pub open spec fn normalize(cs: Seq<Comp>) -> Seq<Comp>
    decreases cs.len(),
{
    if cs.len() == 0 {
        seq![]
    } else {
        norm_step(normalize(cs.drop_last()), cs.last())
    }
}

/// The text of the normal components, separated by `/`.
pub open spec fn join_normals(cs: Seq<Comp>) -> Seq<char>
    decreases cs.len(),
{
    if cs.len() == 0 {
        seq![]
    } else {
        let last = match cs.last() {
            Comp::Normal(s) => s,
            Comp::Parent => dotdot(),
            Comp::Cur => dot(),
            Comp::Root => seq![],
        };
        if cs.len() == 1 {
            last
        } else {
            join_normals(cs.drop_last()) + seq!['/'] + last
        }
    }
}

/// The text of a path built from `cs` by pushing each component.
pub open spec fn display(cs: Seq<Comp>) -> Seq<char> {
    if cs.len() > 0 && cs[0] == Comp::Root {
        seq!['/'] + join_normals(cs.drop_first())
    } else {
        join_normals(cs)
    }
}

/// `path` is absolute: it starts with `/`.
pub open spec fn is_absolute(path: Seq<char>) -> bool {
    path.len() > 0 && path[0] == '/'
}

/// What [`normalize_dotdots`] returns: the text of the normalized components,
/// or an error when nothing is left.
pub open spec fn normalize_spec(path: Seq<char>) -> Result<Seq<char>, PathError> {
    if normalize(components(path)).len() == 0 {
        Err(PathError::NormalizedEmpty)
    } else {
        Ok(display(normalize(components(path))))
    }
}

/// The path that `resolve_user_path` normalizes: `path` itself when it is
/// absolute, else `path` joined onto `cwd`.
pub open spec fn combined_path(path: Seq<char>, cwd: Seq<char>) -> Seq<char> {
    if is_absolute(path) {
        path
    } else {
        join(cwd, path)
    }
}

/// The normalized components that `resolve_user_path` computes.
pub open spec fn resolved_comps(path: Seq<char>, cwd: Seq<char>) -> Seq<Comp> {
    normalize(components(combined_path(path, cwd)))
}

/// What `resolve_user_path` returns.
pub open spec fn resolve_spec(path: Seq<char>, cwd: Seq<char>) -> Result<Seq<char>, PathError> {
    if path.len() == 0 {
        Err(PathError::Empty)
    } else {
        normalize_spec(combined_path(path, cwd))
    }
}

/// `base.join(child)` (`PathBuf::push`): an absolute child replaces the base,
/// otherwise a separator goes in between unless the base is empty or ends in one.
pub open spec fn join(base: Seq<char>, child: Seq<char>) -> Seq<char> {
    if is_absolute(child) {
        child
    } else if base.len() == 0 || base.last() == '/' {
        base + child
    } else {
        base + seq!['/'] + child
    }
}

/// `Path::file_name`: the last component when it is a normal one.
pub open spec fn file_name(path: Seq<char>) -> Option<Seq<char>> {
    let cs = components(path);
    if cs.len() > 0 && cs.last() is Normal {
        Some(cs.last()->Normal_0)
    } else {
        None
    }
}

// ---------------------------------------------------------------- exec

fn piece_component(p: &Vec<char>) -> (r: Option<Component>)
    ensures
        match r {
            Some(c) => piece_comps(p@) == seq![c@],
            None => piece_comps(p@) == Seq::<Comp>::empty(),
        },
{
    if p.len() == 0 {
        None
    } else if p.len() == 1 && p[0] == '.' {
        assert(p@ =~= dot());
        None
    } else if p.len() == 2 && p[0] == '.' && p[1] == '.' {
        assert(p@ =~= dotdot());
        Some(Component::ParentDir)
    } else {
        assert(p@ != dot() && p@ != dotdot()) by {
            if p@ == dot() {
                assert(p@.len() == 1 && p@[0] == '.');
            }
            if p@ == dotdot() {
                assert(p@.len() == 2 && p@[0] == '.' && p@[1] == '.');
            }
        }
        Some(Component::Normal(string_of(p.as_slice())))
    }
}

/// Spec view of a component vector.
pub open spec fn comps_view(v: Seq<Component>) -> Seq<Comp> {
    Seq::new(v.len(), |i: int| v[i]@)
}

fn push_pieces(out: &mut Vec<Component>, ps: &Vec<Vec<char>>, from: usize)
    requires
        from <= ps@.len(),
    ensures
        comps_view(final(out)@) == comps_view(old(out)@) + pieces_comps(
            Seq::new(ps@.len(), |i: int| ps@[i]@).skip(from as int),
        ),
{
    let ghost pv = Seq::new(ps@.len(), |i: int| ps@[i]@);
    let ghost start = comps_view(out@);
    let mut i: usize = from;
    assert(pv.skip(from as int).take(0) =~= Seq::<Seq<char>>::empty());
    while i < ps.len()
        invariant
            from <= i <= ps@.len(),
            pv == Seq::new(ps@.len(), |i: int| ps@[i]@),
            comps_view(out@) == start + pieces_comps(pv.skip(from as int).take(i - from)),
        decreases ps.len() - i,
    {
        let ghost before = comps_view(out@);
        match piece_component(&ps[i]) {
            Some(c) => {
                out.push(c);
            },
            None => {},
        }
        proof {
            let t = pv.skip(from as int).take(i + 1 - from);
            assert(t.drop_last() =~= pv.skip(from as int).take(i - from));
            assert(t.last() == ps@[i as int]@);
            assert(comps_view(out@) =~= before + piece_comps(ps@[i as int]@));
        }
        i = i + 1;
    }
    assert(pv.skip(from as int).take(ps.len() - from) =~= pv.skip(from as int));
}

/// The components of `path` (see [`components`]).
pub fn components_of(path: &str) -> (r: Vec<Component>)
    ensures
        comps_view(r@) == components(path@),
{
    let cs = chars_of(path);
    let ps = split_chars(&cs, '/');
    let ghost pv = Seq::new(ps@.len(), |i: int| ps@[i]@);
    assert(pv =~= split_on(path@, '/'));
    let mut out: Vec<Component> = Vec::new();
    assert(comps_view(out@) =~= Seq::<Comp>::empty());
    if cs.len() > 0 && cs[0] == '/' {
        out.push(Component::RootDir);
        assert(comps_view(out@) =~= seq![Comp::Root]);
        push_pieces(&mut out, &ps, 1);
        assert(pv.skip(1) =~= pv.drop_first());
    } else if ps[0].len() == 1 && ps[0][0] == '.' {
        assert(ps@[0]@ =~= dot());
        out.push(Component::CurDir);
        assert(comps_view(out@) =~= seq![Comp::Cur]);
        push_pieces(&mut out, &ps, 1);
        assert(pv.skip(1) =~= pv.drop_first());
    } else {
        assert(pv[0] != dot()) by {
            if pv[0] == dot() {
                assert(ps@[0]@.len() == 1 && ps@[0]@[0] == '.');
            }
        }
        push_pieces(&mut out, &ps, 0);
        assert(pv.skip(0) =~= pv);
    }
    assert(comps_view(out@) =~= components(path@));
    out
}

/// Equality of two components.
pub fn comp_eq(a: &Component, b: &Component) -> (r: bool)
    ensures
        r == (a@ == b@),
{
    match (a, b) {
        (Component::RootDir, Component::RootDir) => true,
        (Component::CurDir, Component::CurDir) => true,
        (Component::ParentDir, Component::ParentDir) => true,
        (Component::Normal(x), Component::Normal(y)) => str_eq(x.as_str(), y.as_str()),
        _ => false,
    }
}

/// `base` is a leading part of `path` (see [`starts_with`]).
pub fn path_starts_with(path: &str, base: &str) -> (r: bool)
    ensures
        r == starts_with(path@, base@),
{
    let a = components_of(path);
    let b = components_of(base);
    if b.len() > a.len() {
        return false;
    }
    let ghost av = comps_view(a@);
    let ghost bv = comps_view(b@);
    let mut i: usize = 0;
    while i < b.len()
        invariant
            i <= b.len() <= a.len(),
            av == comps_view(a@),
            bv == comps_view(b@),
            av == components(path@),
            bv == components(base@),
            forall|k: int| 0 <= k < i ==> av[k] == bv[k],
        decreases b.len() - i,
    {
        if !comp_eq(&a[i], &b[i]) {
            assert(av.take(bv.len() as int)[i as int] != bv[i as int]);
            return false;
        }
        i = i + 1;
    }
    assert(av.take(bv.len() as int) =~= bv);
    true
}

/// `a` and `b` name the same path component by component (see [`same_path`]).
pub fn path_eq(a: &str, b: &str) -> (r: bool)
    ensures
        r == same_path(a@, b@),
{
    let x = components_of(a);
    let y = components_of(b);
    let ghost xv = comps_view(x@);
    let ghost yv = comps_view(y@);
    if x.len() != y.len() {
        assert(xv.len() != yv.len());
        return false;
    }
    let mut i: usize = 0;
    while i < x.len()
        invariant
            i <= x.len() == y.len(),
            xv == comps_view(x@),
            yv == comps_view(y@),
            xv == components(a@),
            yv == components(b@),
            forall|k: int| 0 <= k < i ==> xv[k] == yv[k],
        decreases x.len() - i,
    {
        if !comp_eq(&x[i], &y[i]) {
            assert(xv[i as int] != yv[i as int]);
            return false;
        }
        i = i + 1;
    }
    assert(xv =~= yv);
    true
}

/// Lexical `..` normalization of a component list (see [`normalize`]).
pub fn normalize_components(cs: &Vec<Component>) -> (r: Vec<Component>)
    ensures
        comps_view(r@) == normalize(comps_view(cs@)),
{
    let ghost cv = comps_view(cs@);
    let mut out: Vec<Component> = Vec::new();
    let mut i: usize = 0;
    assert(cv.take(0) =~= Seq::<Comp>::empty());
    assert(comps_view(out@) =~= Seq::<Comp>::empty());
    while i < cs.len()
        invariant
            i <= cs.len(),
            cv == comps_view(cs@),
            comps_view(out@) == normalize(cv.take(i as int)),
        decreases cs.len() - i,
    {
        let ghost before = comps_view(out@);
        match &cs[i] {
            Component::RootDir => {
                out = Vec::new();
                out.push(Component::RootDir);
                assert(comps_view(out@) =~= seq![Comp::Root]);
            },
            Component::CurDir => {},
            Component::ParentDir => {
                let only_root = out.len() == 1 && match &out[0] {
                    Component::RootDir => true,
                    _ => false,
                };
                if out.len() > 0 && !only_root {
                    out.pop();
                    assert(comps_view(out@) =~= before.drop_last());
                }
            },
            Component::Normal(s) => {
                out.push(Component::Normal(s.clone()));
                assert(comps_view(out@) =~= before.push(Comp::Normal(s@)));
            },
        }
        proof {
            assert(cv.take(i + 1).drop_last() =~= cv.take(i as int));
            assert(cv.take(i + 1).last() == cv[i as int]);
        }
        i = i + 1;
    }
    assert(cv.take(cs.len() as int) =~= cv);
    out
}

/// The text of a path made of `cs` (see [`display`]).
pub fn display_components(cs: &Vec<Component>) -> (r: String)
    ensures
        r@ == display(comps_view(cs@)),
{
    let ghost cv = comps_view(cs@);
    let mut out: Vec<char> = Vec::new();
    let mut start: usize = 0;
    if cs.len() > 0 {
        match &cs[0] {
            Component::RootDir => {
                out.push('/');
                start = 1;
            },
            _ => {},
        }
    }
    let ghost rest = cv.skip(start as int);
    let ghost prefix = out@;
    assert(prefix + join_normals(rest.take(0)) =~= out@);
    let mut i: usize = start;
    while i < cs.len()
        invariant
            start <= i <= cs.len(),
            start <= 1,
            cv == comps_view(cs@),
            rest == cv.skip(start as int),
            out@ == prefix + join_normals(rest.take(i - start)),
        decreases cs.len() - i,
    {
        if i > start {
            out.push('/');
        }
        match &cs[i] {
            Component::Normal(s) => push_str(&mut out, s.as_str()),
            Component::ParentDir => push_str(&mut out, ".."),
            Component::CurDir => push_str(&mut out, "."),
            Component::RootDir => {},
        }
        proof {
            reveal_strlit("..");
            reveal_strlit(".");
            let t = rest.take(i + 1 - start);
            assert(t.drop_last() =~= rest.take(i - start));
            assert(t.last() == cv[i as int]);
            assert(out@ =~= prefix + join_normals(t));
        }
        i = i + 1;
    }
    assert(rest.take(cs.len() - start) =~= rest);
    proof {
        if cv.len() > 0 && cv[0] == Comp::Root {
            assert(start == 1);
            assert(rest =~= cv.drop_first());
            assert(prefix =~= seq!['/']);
        } else {
            assert(start == 0);
            assert(rest =~= cv);
            assert(prefix =~= Seq::<char>::empty());
        }
    }
    assert(out@ =~= display(cv));
    string_of(out.as_slice())
}

/// Normalizes `.` and `..` in `path` lexically (symlinks are not followed);
/// a path that normalizes to nothing is an error.
pub fn normalize_dotdots(path: &str) -> (r: Result<String, PathError>)
    ensures
        match (r, normalize_spec(path@)) {
            (Ok(s), Ok(t)) => s@ == t,
            (Err(e), Err(f)) => e == f,
            _ => false,
        },
{
    let comps = components_of(path);
    let normalized = normalize_components(&comps);
    if normalized.len() == 0 {
        return Err(PathError::NormalizedEmpty);
    }
    Ok(display_components(&normalized))
}

/// Makes `path` absolute against `cwd` and normalizes `.` and `..` lexically
/// (symlinks are not followed). An empty `path`, or one that normalizes to
/// nothing, is an error.
pub fn resolve_user_path(path: &str, cwd: &str) -> (r: Result<String, PathError>)
    ensures
        match (r, resolve_spec(path@, cwd@)) {
            (Ok(s), Ok(t)) => s@ == t,
            (Err(e), Err(f)) => e == f,
            _ => false,
        },
{
    let pc = chars_of(path);
    if pc.len() == 0 {
        return Err(PathError::Empty);
    }
    if pc[0] == '/' {
        normalize_dotdots(path)
    } else {
        let combined = join_path(cwd, path);
        normalize_dotdots(combined.as_str())
    }
}

/// `base` joined with `child` (see [`join`]).
pub fn join_path(base: &str, child: &str) -> (r: String)
    ensures
        r@ == join(base@, child@),
{
    let b = chars_of(base);
    let c = chars_of(child);
    if c.len() > 0 && c[0] == '/' {
        return string_of(c.as_slice());
    }
    let mut out = b;
    if out.len() > 0 && out[out.len() - 1] != '/' {
        out.push('/');
    }
    push_all(&mut out, &c);
    string_of(out.as_slice())
}

/// The last component of `path` when it is a normal one (see [`file_name`]).
pub fn path_file_name(path: &str) -> (r: Option<String>)
    ensures
        match r {
            Some(s) => file_name(path@) == Some(s@),
            None => file_name(path@) is None,
        },
{
    let cs = components_of(path);
    if cs.len() == 0 {
        return None;
    }
    match &cs[cs.len() - 1] {
        Component::Normal(s) => Some(s.clone()),
        _ => None,
    }
}

// ---------------------------------------------------------------- laws

/// A name that a normal component can carry: not empty, not `.` or `..`,
/// and without a separator.
pub open spec fn clean_name(s: Seq<char>) -> bool {
    &&& s.len() > 0
    &&& s != dot()
    &&& s != dotdot()
    &&& forall|j: int| 0 <= j < s.len() ==> s[j] != '/'
}

/// Every normal component of `cs` carries a clean name.
pub open spec fn names_clean(cs: Seq<Comp>) -> bool {
    forall|i: int| 0 <= i < cs.len() && (#[trigger] cs[i]) is Normal ==> clean_name(cs[i]->Normal_0)
}

/// Normal form: an optional leading root, then normal components with clean
/// names; no `.` and no `..`.
pub open spec fn normal_form(cs: Seq<Comp>) -> bool {
    forall|i: int| 0 <= i < cs.len() ==> match #[trigger] cs[i] {
        Comp::Root => i == 0,
        Comp::Normal(n) => clean_name(n),
        _ => false,
    }
}

/// The names of a list of normal components.
pub open spec fn names_of(cs: Seq<Comp>) -> Seq<Seq<char>> {
    Seq::new(cs.len(), |i: int| cs[i]->Normal_0)
}

proof fn lemma_pieces_concat(a: Seq<Seq<char>>, b: Seq<Seq<char>>)
    ensures
        pieces_comps(a + b) == pieces_comps(a) + pieces_comps(b),
    decreases b.len(),
{
    if b.len() == 0 {
        assert(a + b =~= a);
        assert(pieces_comps(a) + pieces_comps(b) =~= pieces_comps(a));
    } else {
        assert((a + b).drop_last() =~= a + b.drop_last());
        assert((a + b).last() == b.last());
        lemma_pieces_concat(a, b.drop_last());
        assert(pieces_comps(a + b) =~= pieces_comps(a) + pieces_comps(b));
    }
}

proof fn lemma_pieces_clean(ps: Seq<Seq<char>>)
    requires
        forall|i: int, j: int| 0 <= i < ps.len() && 0 <= j < ps[i].len() ==> ps[i][j] != '/',
    ensures
        names_clean(pieces_comps(ps)),
        forall|i: int| 0 <= i < pieces_comps(ps).len() ==> !((#[trigger] pieces_comps(ps)[i]) is Root),
    decreases ps.len(),
{
    if ps.len() > 0 {
        let init = ps.drop_last();
        assert forall|i: int, j: int| 0 <= i < init.len() && 0 <= j < init[i].len() implies init[i][j] != '/' by {
            assert(init[i] == ps[i]);
        }
        lemma_pieces_clean(init);
        let p = ps.last();
        assert(forall|j: int| 0 <= j < p.len() ==> p[j] != '/') by {
            assert(p == ps[ps.len() - 1]);
        }
        let pc = pieces_comps(ps);
        let ic = pieces_comps(init);
        assert(pc == ic + piece_comps(p));
        assert forall|i: int| 0 <= i < pc.len() && (#[trigger] pc[i]) is Normal implies clean_name(pc[i]->Normal_0) by {
            if i < ic.len() {
                assert(pc[i] == ic[i]);
            } else {
                assert(pc[i] == piece_comps(p)[i - ic.len()]);
            }
        }
        assert forall|i: int| 0 <= i < pc.len() implies !((#[trigger] pc[i]) is Root) by {
            if i < ic.len() {
                assert(pc[i] == ic[i]);
            } else {
                assert(pc[i] == piece_comps(p)[i - ic.len()]);
            }
        }
    }
}

/// The components of any text carry clean names, and an absolute text begins with the root.
proof fn lemma_components_clean(s: Seq<char>)
    ensures
        names_clean(components(s)),
        is_absolute(s) ==> components(s).len() > 0 && components(s)[0] == Comp::Root,
{
    let ps = split_on(s, '/');
    crate::text::lemma_split_pieces_free(s, '/');
    let tail = ps.drop_first();
    assert forall|i: int, j: int| 0 <= i < tail.len() && 0 <= j < tail[i].len() implies tail[i][j] != '/' by {
        assert(tail[i] == ps[i + 1]);
    }
    lemma_pieces_clean(tail);
    lemma_pieces_clean(ps);
    let cs = components(s);
    if s.len() > 0 && s[0] == '/' {
        assert forall|i: int| 0 <= i < cs.len() && (#[trigger] cs[i]) is Normal implies clean_name(cs[i]->Normal_0) by {
            assert(cs[i] == pieces_comps(tail)[i - 1]);
        }
    } else if ps[0] == dot() {
        assert forall|i: int| 0 <= i < cs.len() && (#[trigger] cs[i]) is Normal implies clean_name(cs[i]->Normal_0) by {
            assert(cs[i] == pieces_comps(tail)[i - 1]);
        }
    }
}

proof fn lemma_normalize_form(cs: Seq<Comp>)
    requires
        names_clean(cs),
    ensures
        normal_form(normalize(cs)),
    decreases cs.len(),
{
    if cs.len() > 0 {
        let init = cs.drop_last();
        assert forall|i: int| 0 <= i < init.len() && (#[trigger] init[i]) is Normal implies clean_name(init[i]->Normal_0) by {
            assert(init[i] == cs[i]);
        }
        lemma_normalize_form(init);
        let prev = normalize(init);
        let c = cs.last();
        assert(c == cs[cs.len() - 1]);
        let out = normalize(cs);
        match c {
            Comp::Root => {
                assert(out =~= seq![Comp::Root]);
            },
            Comp::Cur => {},
            Comp::Parent => {
                if !(prev.len() == 0 || (prev.len() == 1 && prev[0] == Comp::Root)) {
                    assert forall|i: int| 0 <= i < out.len() implies match #[trigger] out[i] {
                        Comp::Root => i == 0,
                        Comp::Normal(n) => clean_name(n),
                        _ => false,
                    } by {
                        assert(out[i] == prev[i]);
                    }
                }
            },
            Comp::Normal(n) => {
                assert forall|i: int| 0 <= i < out.len() implies match #[trigger] out[i] {
                    Comp::Root => i == 0,
                    Comp::Normal(n) => clean_name(n),
                    _ => false,
                } by {
                    if i < prev.len() {
                        assert(out[i] == prev[i]);
                    }
                }
            },
        }
    }
}

proof fn lemma_normalize_root(cs: Seq<Comp>)
    requires
        cs.len() > 0,
        cs[0] == Comp::Root,
    ensures
        normalize(cs).len() > 0,
        normalize(cs)[0] == Comp::Root,
    decreases cs.len(),
{
    if cs.len() == 1 {
        assert(cs.drop_last() =~= Seq::<Comp>::empty());
    } else {
        let init = cs.drop_last();
        assert(init[0] == cs[0]);
        lemma_normalize_root(init);
    }
}

proof fn lemma_normalize_fixed(n: Seq<Comp>)
    requires
        normal_form(n),
    ensures
        normalize(n) == n,
    decreases n.len(),
{
    if n.len() > 0 {
        let init = n.drop_last();
        assert forall|i: int| 0 <= i < init.len() implies match #[trigger] init[i] {
            Comp::Root => i == 0,
            Comp::Normal(m) => clean_name(m),
            _ => false,
        } by {
            assert(init[i] == n[i]);
        }
        lemma_normalize_fixed(init);
        let c = n[n.len() - 1];
        assert(n.last() == c);
        match c {
            Comp::Root => {
                assert(init.len() == 0);
                assert(normalize(n) =~= n);
            },
            Comp::Normal(m) => {
                assert(normalize(n) =~= n);
            },
            _ => {},
        }
    }
}

proof fn lemma_split_join_normals(ns: Seq<Comp>)
    requires
        ns.len() > 0,
        forall|i: int| 0 <= i < ns.len() ==> (#[trigger] ns[i]) is Normal && clean_name(ns[i]->Normal_0),
    ensures
        split_on(join_normals(ns), '/') == names_of(ns),
    decreases ns.len(),
{
    let last = ns.last();
    assert(last == ns[ns.len() - 1]);
    let name = last->Normal_0;
    if ns.len() == 1 {
        crate::text::lemma_split_free(name, '/');
        assert(names_of(ns) =~= seq![name]);
    } else {
        let init = ns.drop_last();
        assert forall|i: int| 0 <= i < init.len() implies (#[trigger] init[i]) is Normal && clean_name(init[i]->Normal_0) by {
            assert(init[i] == ns[i]);
        }
        lemma_split_join_normals(init);
        crate::text::lemma_split_join(join_normals(init), name, '/');
        crate::text::lemma_split_free(name, '/');
        assert(names_of(ns) =~= names_of(init) + seq![name]);
    }
}

proof fn lemma_pieces_names(ns: Seq<Comp>)
    requires
        forall|i: int| 0 <= i < ns.len() ==> (#[trigger] ns[i]) is Normal && clean_name(ns[i]->Normal_0),
    ensures
        pieces_comps(names_of(ns)) == ns,
    decreases ns.len(),
{
    if ns.len() > 0 {
        let init = ns.drop_last();
        assert forall|i: int| 0 <= i < init.len() implies (#[trigger] init[i]) is Normal && clean_name(init[i]->Normal_0) by {
            assert(init[i] == ns[i]);
        }
        lemma_pieces_names(init);
        assert(names_of(ns).drop_last() =~= names_of(init));
        let last = ns[ns.len() - 1];
        assert(names_of(ns).last() == last->Normal_0);
        assert(piece_comps(last->Normal_0) == seq![last]);
        assert(pieces_comps(names_of(ns)) =~= ns);
    }
}

proof fn lemma_pieces_of_empty()
    ensures
        pieces_comps(seq![Seq::<char>::empty()]) == Seq::<Comp>::empty(),
{
    let ps = seq![Seq::<char>::empty()];
    assert(ps.drop_last() =~= Seq::<Seq<char>>::empty());
    assert(ps.last() == Seq::<char>::empty());
    assert(piece_comps(Seq::<char>::empty()) =~= Seq::<Comp>::empty());
    assert(pieces_comps(Seq::<Seq<char>>::empty()) =~= Seq::<Comp>::empty());
    assert(pieces_comps(ps) == pieces_comps(ps.drop_last()) + piece_comps(ps.last()));
    assert(pieces_comps(ps) =~= Seq::<Comp>::empty());
}

/// Reading back the text of a path in normal form gives its components again.
proof fn lemma_display_round_trip(n: Seq<Comp>)
    requires
        normal_form(n),
    ensures
        components(display(n)) == n,
{
    let empty = Seq::<char>::empty();
    assert(split_on(empty, '/') == seq![empty]) by {
        crate::text::lemma_split_free(empty, '/');
    }
    if n.len() > 0 && n[0] == Comp::Root {
        let rest = n.drop_first();
        assert forall|i: int| 0 <= i < rest.len() implies (#[trigger] rest[i]) is Normal && clean_name(rest[i]->Normal_0) by {
            assert(rest[i] == n[i + 1]);
        }
        let d = display(n);
        assert(d == seq!['/'] + join_normals(rest));
        assert(d =~= empty + seq!['/'] + join_normals(rest));
        crate::text::lemma_split_join(empty, join_normals(rest), '/');
        let ps = split_on(d, '/');
        if rest.len() == 0 {
            assert(ps.drop_first() =~= seq![empty]);
            lemma_pieces_of_empty();
            assert(components(d) =~= n);
        } else {
            lemma_split_join_normals(rest);
            lemma_pieces_names(rest);
            assert(ps.drop_first() =~= names_of(rest));
            assert(components(d) =~= n);
        }
    } else {
        assert forall|i: int| 0 <= i < n.len() implies (#[trigger] n[i]) is Normal && clean_name(n[i]->Normal_0) by {
            if n[i] is Root {
                assert(i == 0);
            }
        }
        let d = display(n);
        assert(d == join_normals(n));
        if n.len() == 0 {
            assert(d =~= empty);
            assert(split_on(d, '/')[0] != dot());
            lemma_pieces_of_empty();
        } else {
            lemma_split_join_normals(n);
            lemma_pieces_names(n);
            let ps = split_on(d, '/');
            assert(ps[0] == n[0]->Normal_0);
            if d.len() > 0 && d[0] == '/' {
                assert(char_index(d, '/') == 0);
                assert(ps[0] =~= empty);
            }
            assert(components(d) == n);
        }
    }
}

/// A resolved path is in normal form: its components are exactly the
/// normalized ones, with at most a leading root and no `.` or `..`.
pub proof fn law_resolved_path_is_normal(path: Seq<char>, cwd: Seq<char>)
    ensures
        resolve_spec(path, cwd) matches Ok(g) ==> {
            &&& components(g) == resolved_comps(path, cwd)
            &&& normal_form(components(g))
            &&& forall|i: int| 0 <= i < components(g).len()
                ==> #[trigger] components(g)[i] != Comp::Parent && components(g)[i] != Comp::Cur
        },
{
    let cs = components(combined_path(path, cwd));
    lemma_components_clean(combined_path(path, cwd));
    lemma_normalize_form(cs);
    let n = normalize(cs);
    assert(n == resolved_comps(path, cwd));
    lemma_display_round_trip(n);
    assert forall|i: int| 0 <= i < n.len() implies #[trigger] n[i] != Comp::Parent && n[i] != Comp::Cur by {
        assert(match n[i] {
            Comp::Root => i == 0,
            Comp::Normal(m) => clean_name(m),
            _ => false,
        });
    }
}

/// Against an absolute working directory, or for an absolute path, a
/// non-empty path always resolves, and to an absolute path.
pub proof fn law_resolved_path_is_absolute(path: Seq<char>, cwd: Seq<char>)
    requires
        path.len() > 0,
        is_absolute(path) || is_absolute(cwd),
    ensures
        resolve_spec(path, cwd) is Ok,
        is_absolute(resolve_spec(path, cwd)->Ok_0),
{
    let c = combined_path(path, cwd);
    if !is_absolute(path) {
        assert(c[0] == cwd[0]);
    }
    lemma_components_clean(c);
    lemma_normalize_root(components(c));
}

/// Resolving an absolute resolved path again, against any directory, gives it back.
pub proof fn law_resolve_is_idempotent(path: Seq<char>, cwd: Seq<char>, other_cwd: Seq<char>)
    requires
        resolve_spec(path, cwd) is Ok,
        is_absolute(resolve_spec(path, cwd)->Ok_0),
    ensures
        resolve_spec(resolve_spec(path, cwd)->Ok_0, other_cwd) == resolve_spec(path, cwd),
{
    let g = resolve_spec(path, cwd)->Ok_0;
    law_resolved_path_is_normal(path, cwd);
    let n = components(g);
    lemma_normalize_fixed(n);
    assert(resolved_comps(g, other_cwd) == n);
}

/// `normalize_dotdots` is idempotent for every input, relative or absolute:
/// normalizing its result again gives that result back. The result is in
/// normal form, and an absolute input keeps its root.
pub proof fn law_normalize_dotdots_is_idempotent(path: Seq<char>)
    ensures
        normalize_spec(path) matches Ok(g) ==> {
            &&& normalize_spec(g) == Ok::<Seq<char>, PathError>(g)
            &&& normal_form(components(g))
            &&& (is_absolute(path) ==> is_absolute(g))
        },
{
    lemma_components_clean(path);
    let n = normalize(components(path));
    lemma_normalize_form(components(path));
    lemma_display_round_trip(n);
    lemma_normalize_fixed(n);
    if is_absolute(path) {
        lemma_normalize_root(components(path));
    }
}

} // verus!
