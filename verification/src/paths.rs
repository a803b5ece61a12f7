//! A component-wise model of file-system paths.
//!
//! A [`DocPath`] holds the components of a path in order, the way `std::path::Path`
//! enumerates them. Equality, prefixes, joining and lexical normalisation are defined
//! over those components.

use vstd::prelude::*;

use std::path::Component;
use std::path::Path;

verus! {

/// One component of a path.
#[derive(Debug, PartialEq, Eq)]
pub enum PathPart {
    /// A platform prefix such as `C:`.
    Prefix(String),
    /// The root directory separator.
    Root,
    /// A `.` component.
    Current,
    /// A `..` component.
    Parent,
    /// An ordinary name.
    Normal(String),
}

/// The mathematical value of a [`PathPart`].
pub enum PartView {
    Prefix(Seq<char>),
    Root,
    Current,
    Parent,
    Normal(Seq<char>),
}

impl View for PathPart {
    type V = PartView;

    open spec fn view(&self) -> PartView {
        match self {
            PathPart::Prefix(s) => PartView::Prefix(s@),
            PathPart::Root => PartView::Root,
            PathPart::Current => PartView::Current,
            PathPart::Parent => PartView::Parent,
            PathPart::Normal(s) => PartView::Normal(s@),
        }
    }
}

impl PathPart {
    /// A copy of this component.
    pub fn duplicate(&self) -> (r: PathPart)
        ensures
            r@ == self@,
    {
        match self {
            PathPart::Prefix(s) => PathPart::Prefix(s.clone()),
            PathPart::Root => PathPart::Root,
            PathPart::Current => PathPart::Current,
            PathPart::Parent => PathPart::Parent,
            PathPart::Normal(s) => PathPart::Normal(s.clone()),
        }
    }

    /// Whether two components are the same.
    pub fn same(&self, other: &PathPart) -> (r: bool)
        ensures
            r == (self@ == other@),
    {
        match self {
            PathPart::Prefix(a) => match other {
                PathPart::Prefix(b) => a.eq(b),
                _ => false,
            },
            PathPart::Root => match other {
                PathPart::Root => true,
                _ => false,
            },
            PathPart::Current => match other {
                PathPart::Current => true,
                _ => false,
            },
            PathPart::Parent => match other {
                PathPart::Parent => true,
                _ => false,
            },
            PathPart::Normal(a) => match other {
                PathPart::Normal(b) => a.eq(b),
                _ => false,
            },
        }
    }
}

/// A path, as the sequence of its components.
#[derive(Debug, PartialEq, Eq)]
pub struct DocPath {
    pub parts: Vec<PathPart>,
}

/// The components of a sequence of parts, by value.
pub open spec fn parts_view(parts: Seq<PathPart>) -> Seq<PartView> {
    parts.map_values(|p: PathPart| p@)
}

impl View for DocPath {
    type V = Seq<PartView>;

    open spec fn view(&self) -> Seq<PartView> {
        parts_view(self.parts@)
    }
}

/// The path begins with a platform prefix such as `C:`.
pub open spec fn has_prefix(p: Seq<PartView>) -> bool {
    p.len() > 0 && p[0] is Prefix
}

/// The path begins with the root directory itself, with no prefix before it.
pub open spec fn starts_at_root(p: Seq<PartView>) -> bool {
    p.len() > 0 && p[0] is Root
}

/// The platform prefix of `p` as a path of its own; empty when `p` has none.
pub open spec fn prefix_of(p: Seq<PartView>) -> Seq<PartView> {
    if has_prefix(p) {
        p.subrange(0, 1)
    } else {
        Seq::empty()
    }
}

/// `base.join(rel)`, as `PathBuf::push` builds it: a `rel` with a prefix replaces `base`,
/// a `rel` that starts at the root keeps only the prefix of `base`, and any other `rel` is
/// appended.
pub open spec fn join(base: Seq<PartView>, rel: Seq<PartView>) -> Seq<PartView> {
    if has_prefix(rel) {
        rel
    } else if starts_at_root(rel) {
        prefix_of(base) + rel
    } else {
        base + rel
    }
}

/// `p` starts with all the components of `q`.
pub open spec fn starts_with(p: Seq<PartView>, q: Seq<PartView>) -> bool {
    q.len() <= p.len() && p.subrange(0, q.len() as int) == q
}

/// `p.strip_prefix(q)`: the components of `p` after those of `q`, when `p` starts with `q`.
pub open spec fn strip_prefix(p: Seq<PartView>, q: Seq<PartView>) -> Option<Seq<PartView>> {
    if starts_with(p, q) {
        Some(p.subrange(q.len() as int, p.len() as int))
    } else {
        None
    }
}

/// `p` moved from under `old` to under `new`; unchanged when `p` is not under `old`.
pub open spec fn rebase(p: Seq<PartView>, old: Seq<PartView>, new: Seq<PartView>) -> Seq<PartView> {
    match strip_prefix(p, old) {
        Some(suffix) => join(new, suffix),
        None => p,
    }
}

/// `PathBuf::pop` succeeds: the last component is a name, `.` or `..`.
pub open spec fn can_pop(p: Seq<PartView>) -> bool {
    p.len() > 0 && (p.last() is Normal || p.last() is Current || p.last() is Parent)
}

/// Lexical normalisation: `.` is dropped, `..` removes the previous component when it can
/// and is kept otherwise, every other component is kept.
pub open spec fn normalize(parts: Seq<PartView>) -> Seq<PartView>
    decreases parts.len(),
{
    if parts.len() == 0 {
        Seq::empty()
    } else {
        let acc = normalize(parts.drop_last());
        match parts.last() {
            PartView::Current => acc,
            PartView::Parent => if can_pop(acc) {
                acc.drop_last()
            } else {
                acc.push(PartView::Parent)
            },
            other => acc.push(other),
        }
    }
}

/// The absolute form of `p`: `p` joined onto the working directory when it is known, which
/// leaves a path that is already absolute as it is.
pub open spec fn absolute(p: Seq<PartView>, cwd: Option<Seq<PartView>>) -> Seq<PartView> {
    match cwd {
        Some(c) => join(c, p),
        None => p,
    }
}

/// The normalised absolute form of `p`.
pub open spec fn normalized(p: Seq<PartView>, cwd: Option<Seq<PartView>>) -> Seq<PartView> {
    normalize(absolute(p, cwd))
}

pub open spec fn opt_view(cwd: Option<&DocPath>) -> Option<Seq<PartView>> {
    match cwd {
        Some(c) => Some(c@),
        None => None,
    }
}

impl DocPath {
    /// The empty path.
    pub fn empty() -> (r: DocPath)
        ensures
            r@ == Seq::<PartView>::empty(),
    {
        DocPath { parts: Vec::new() }
    }

    /// A path made of the given components.
    pub fn from_parts(parts: Vec<PathPart>) -> (r: DocPath)
        ensures
            r@ == parts_view(parts@),
    {
        DocPath { parts }
    }

    /// The number of components.
    pub fn len(&self) -> (r: usize)
        ensures
            r == self@.len(),
    {
        self.parts.len()
    }

    /// Whether the path has no component (it is the empty path).
    pub fn is_empty(&self) -> (r: bool)
        ensures
            r == (self@.len() == 0),
    {
        self.parts.len() == 0
    }

    /// A copy of this path.
    pub fn duplicate(&self) -> (r: DocPath)
        ensures
            r@ == self@,
    {
        let mut parts: Vec<PathPart> = Vec::new();
        let mut i: usize = 0;
        while i < self.parts.len()
            invariant
                i <= self.parts.len(),
                parts_view(parts@) == parts_view(self.parts@).subrange(0, i as int),
            decreases self.parts.len() - i,
        {
            let part = self.parts[i].duplicate();
            proof {
                assert(parts_view(parts@.push(part)) =~= parts_view(parts@).push(part@));
                assert(parts_view(self.parts@).subrange(0, i + 1) =~= parts_view(
                    self.parts@,
                ).subrange(0, i as int).push(self.parts@[i as int]@));
            }
            parts.push(part);
            i = i + 1;
        }
        assert(parts_view(self.parts@).subrange(0, i as int) =~= parts_view(self.parts@));
        DocPath { parts }
    }

    /// Whether two paths have the same components.
    pub fn same(&self, other: &DocPath) -> (r: bool)
        ensures
            r == (self@ == other@),
    {
        if self.parts.len() != other.parts.len() {
            assert(self@.len() != other@.len());
            return false;
        }
        let mut i: usize = 0;
        while i < self.parts.len()
            invariant
                i <= self.parts.len(),
                self.parts.len() == other.parts.len(),
                forall|j: int| 0 <= j < i ==> self@[j] == other@[j],
            decreases self.parts.len() - i,
        {
            if !self.parts[i].same(&other.parts[i]) {
                assert(self@[i as int] != other@[i as int]);
                return false;
            }
            i = i + 1;
        }
        assert(self@ =~= other@);
        true
    }
}

/// The components that `std::path::Path::components` yields for the text of a path, on
/// the platform the library is built for.
pub uninterp spec fn std_path_components(text: Seq<char>) -> Seq<PartView>;

/// Splits the text of a path into components with `std::path::Path::components`,
/// carrying each component over one for one. Its contract claims only that the result
/// is what `std` yields for this text.
#[verifier::external_body]
fn std_components(text: &str) -> (r: Vec<PathPart>)
    ensures
        parts_view(r@) == std_path_components(text@),
{
    Path::new(text).components().map(|c| match c {
        Component::Prefix(p) => PathPart::Prefix(p.as_os_str().to_string_lossy().into_owned()),
        Component::RootDir => PathPart::Root,
        Component::CurDir => PathPart::Current,
        Component::ParentDir => PathPart::Parent,
        Component::Normal(n) => PathPart::Normal(n.to_string_lossy().into_owned()),
    }).collect()
}

impl DocPath {
    /// The path that the given text names, split as `std::path::Path` splits it.
    pub fn parse(text: &str) -> (r: DocPath)
        ensures
            r@ == std_path_components(text@),
    {
        DocPath { parts: std_components(text) }
    }

    /// Whether the path begins with a platform prefix.
    pub fn has_prefix(&self) -> (r: bool)
        ensures
            r == has_prefix(self@),
    {
        if self.parts.len() > 0 {
            if let PathPart::Prefix(_) = &self.parts[0] {
                return true;
            }
        }
        false
    }

    /// Whether the path begins with the root directory itself.
    pub fn starts_at_root(&self) -> (r: bool)
        ensures
            r == starts_at_root(self@),
    {
        if self.parts.len() > 0 {
            if let PathPart::Root = &self.parts[0] {
                return true;
            }
        }
        false
    }

    /// Appends the components of `rel` from index `from` on.
    fn append_from(&mut self, rel: &DocPath, from: usize)
        requires
            from <= rel@.len(),
        ensures
            final(self)@ == old(self)@ + rel@.subrange(from as int, rel@.len() as int),
    {
        let mut i = from;
        while i < rel.parts.len()
            invariant
                from <= i <= rel.parts.len(),
                self@ == old(self)@ + rel@.subrange(from as int, i as int),
            decreases rel.parts.len() - i,
        {
            let part = rel.parts[i].duplicate();
            proof {
                assert(parts_view(self.parts@.push(part)) =~= parts_view(self.parts@).push(part@));
                assert(old(self)@ + rel@.subrange(from as int, i + 1) =~= (old(self)@
                    + rel@.subrange(from as int, i as int)).push(rel@[i as int]));
            }
            self.parts.push(part);
            i = i + 1;
        }
    }

    /// `self.join(rel)`.
    pub fn join(&self, rel: &DocPath) -> (r: DocPath)
        ensures
            r@ == join(self@, rel@),
    {
        if rel.has_prefix() {
            return rel.duplicate();
        }
        let mut r = if rel.starts_at_root() {
            let mut p = DocPath::empty();
            if self.has_prefix() {
                let part = self.parts[0].duplicate();
                proof {
                    assert(parts_view(p.parts@.push(part)) =~= parts_view(p.parts@).push(part@));
                    assert(parts_view(p.parts@).push(part@) =~= self@.subrange(0, 1));
                }
                p.parts.push(part);
            }
            assert(p@ =~= prefix_of(self@));
            p
        } else {
            self.duplicate()
        };
        r.append_from(rel, 0);
        assert(rel@.subrange(0, rel@.len() as int) =~= rel@);
        r
    }

    /// Whether `self` starts with all the components of `prefix`.
    pub fn starts_with(&self, prefix: &DocPath) -> (r: bool)
        ensures
            r == starts_with(self@, prefix@),
    {
        if prefix.parts.len() > self.parts.len() {
            return false;
        }
        let mut i: usize = 0;
        while i < prefix.parts.len()
            invariant
                i <= prefix.parts.len() <= self.parts.len(),
                forall|j: int| 0 <= j < i ==> self@[j] == prefix@[j],
            decreases prefix.parts.len() - i,
        {
            if !self.parts[i].same(&prefix.parts[i]) {
                assert(self@.subrange(0, prefix@.len() as int)[i as int] != prefix@[i as int]);
                return false;
            }
            i = i + 1;
        }
        assert(self@.subrange(0, prefix@.len() as int) =~= prefix@);
        true
    }

    /// `self.strip_prefix(prefix)`.
    pub fn strip_prefix(&self, prefix: &DocPath) -> (r: Option<DocPath>)
        ensures
            match r {
                Some(s) => strip_prefix(self@, prefix@) == Some(s@),
                None => strip_prefix(self@, prefix@) is None,
            },
    {
        if self.starts_with(prefix) {
            let mut s = DocPath::empty();
            s.append_from(self, prefix.parts.len());
            assert(s@ =~= self@.subrange(prefix@.len() as int, self@.len() as int));
            Some(s)
        } else {
            None
        }
    }

    /// `self` moved from under `old` to under `new`; a copy of `self` when it is not under
    /// `old`.
    pub fn rebase(&self, old: &DocPath, new: &DocPath) -> (r: DocPath)
        ensures
            r@ == rebase(self@, old@, new@),
    {
        match self.strip_prefix(old) {
            Some(suffix) => new.join(&suffix),
            None => self.duplicate(),
        }
    }

    /// The absolute form of this path against the working directory `cwd`, when known.
    pub fn absolute(&self, cwd: Option<&DocPath>) -> (r: DocPath)
        ensures
            r@ == absolute(self@, opt_view(cwd)),
    {
        match cwd {
            Some(c) => c.join(self),
            None => self.duplicate(),
        }
    }

    /// The lexically normalised absolute form of this path.
    pub fn normalized(&self, cwd: Option<&DocPath>) -> (r: DocPath)
        ensures
            r@ == normalized(self@, opt_view(cwd)),
    {
        let abs = self.absolute(cwd);
        let mut acc = DocPath::empty();
        let mut i: usize = 0;
        while i < abs.parts.len()
            invariant
                i <= abs.parts.len(),
                acc@ == normalize(abs@.subrange(0, i as int)),
            decreases abs.parts.len() - i,
        {
            let ghost prev = acc@;
            proof {
                let s = abs@.subrange(0, i + 1);
                assert(s.drop_last() =~= abs@.subrange(0, i as int));
                assert(s.last() == abs@[i as int]);
            }
            match &abs.parts[i] {
                PathPart::Current => {},
                PathPart::Parent => {
                    if acc.can_pop() {
                        acc.pop_last();
                    } else {
                        proof {
                            assert(parts_view(acc.parts@.push(PathPart::Parent)) =~= parts_view(
                                acc.parts@,
                            ).push(PartView::Parent));
                        }
                        acc.parts.push(PathPart::Parent);
                    }
                },
                other => {
                    let part = other.duplicate();
                    proof {
                        assert(parts_view(acc.parts@.push(part)) =~= parts_view(acc.parts@).push(
                            part@,
                        ));
                    }
                    acc.parts.push(part);
                },
            }
            i = i + 1;
        }
        assert(abs@.subrange(0, abs@.len() as int) =~= abs@);
        acc
    }

    /// Whether `PathBuf::pop` would remove the last component.
    fn can_pop(&self) -> (r: bool)
        ensures
            r == can_pop(self@),
    {
        let n = self.parts.len();
        if n == 0 {
            return false;
        }
        match &self.parts[n - 1] {
            PathPart::Normal(_) => true,
            PathPart::Current => true,
            PathPart::Parent => true,
            _ => false,
        }
    }

    /// Removes the last component.
    fn pop_last(&mut self)
        requires
            old(self)@.len() > 0,
        ensures
            final(self)@ == old(self)@.drop_last(),
    {
        self.parts.pop();
        assert(parts_view(self.parts@) =~= parts_view(old(self).parts@).drop_last());
    }
}

/// A path is absolute when it begins with a platform prefix or the root directory.
pub open spec fn is_absolute_start(p: Seq<PartView>) -> bool {
    has_prefix(p) || starts_at_root(p)
}

/// Normalisation resolves a path against the working directory when it is known: with
/// working directory `c`, the normal form of `p` is that of `c` joined with `p`, taken as it
/// stands.
pub proof fn law_normalising_resolves_against_the_working_directory(p: Seq<PartView>, c: Seq<PartView>)
    ensures
        normalized(p, Some(c)) == normalized(join(c, p), None),
{
}

/// Joining onto an absolute path gives an absolute path, and joining the result onto the
/// same base again changes nothing.
pub proof fn lemma_join_onto_absolute(c: Seq<PartView>, p: Seq<PartView>)
    requires
        is_absolute_start(c),
    ensures
        is_absolute_start(join(c, p)),
        join(c, join(c, p)) == join(c, p),
{
    let j = join(c, p);
    if has_prefix(p) {
    } else if starts_at_root(p) {
        if has_prefix(c) {
            assert(j[0] == c[0]);
        } else {
            assert(prefix_of(c) =~= Seq::<PartView>::empty());
            assert(j =~= p);
        }
    } else {
        assert(j[0] == c[0]);
        if has_prefix(c) {
        } else {
            assert(prefix_of(c) =~= Seq::<PartView>::empty());
            assert(prefix_of(c) + j =~= j);
        }
    }
}

/// A path that begins with a platform prefix names the same place whatever the working
/// directory is.
pub proof fn law_prefixed_paths_ignore_the_working_directory(p: Seq<PartView>, cwd: Option<Seq<PartView>>)
    requires
        has_prefix(p),
    ensures
        normalized(p, cwd) == normalized(p, None),
{
}

/// A `.` component changes nothing, and a name followed by `..` cancels out.
pub proof fn law_dot_and_dot_dot(p: Seq<PartView>, name: Seq<char>)
    ensures
        normalize(p.push(PartView::Current)) == normalize(p),
        normalize(p.push(PartView::Normal(name)).push(PartView::Parent)) == normalize(p),
{
    let q = p.push(PartView::Normal(name));
    assert(q.drop_last() =~= p);
    assert(p.push(PartView::Current).drop_last() =~= p);
    assert(q.push(PartView::Parent).drop_last() =~= q);
    assert(normalize(q) == normalize(p).push(PartView::Normal(name)));
    assert(normalize(p).push(PartView::Normal(name)).drop_last() =~= normalize(p));
}

/// A normal form holds no `.` component.
pub proof fn law_normal_forms_have_no_dot(p: Seq<PartView>)
    ensures
        forall|i: int| 0 <= i < normalize(p).len() ==> !(#[trigger] normalize(p)[i] is Current),
    decreases p.len(),
{
    if p.len() > 0 {
        law_normal_forms_have_no_dot(p.drop_last());
        let acc = normalize(p.drop_last());
        assert forall|i: int| 0 <= i < normalize(p).len() implies !(#[trigger] normalize(p)[i] is Current) by {
            if i < acc.len() {
                assert(normalize(p)[i] == acc[i]);
            }
        }
    }
}

} // verus!
