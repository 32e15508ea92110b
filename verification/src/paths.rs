//! On-disk locations: a root directory followed by single-name segments, and
//! the std path components that request paths are split into.

use vstd::prelude::*;

verus! {

/// A location on disk: the root directory handed over by the platform,
/// followed by segments that are each one file or directory name.
#[derive(Clone, Debug, PartialEq, Eq)]
pub struct StoragePath {
    pub root: String,
    pub parts: Vec<String>,
}

/// What a `StoragePath` denotes: its root and its segments as characters.
#[verifier::ext_equal]
pub struct StoragePathView {
    pub root: Seq<char>,
    pub parts: Seq<Seq<char>>,
}

impl View for StoragePath {
    type V = StoragePathView;

    open spec fn view(&self) -> StoragePathView {
        StoragePathView { root: self.root@, parts: self.parts.deep_view() }
    }
}

impl DeepView for StoragePath {
    type V = StoragePathView;

    open spec fn deep_view(&self) -> StoragePathView {
        self@
    }
}

impl StoragePathView {
    /// This location with `segments` appended.
    pub open spec fn join_all(self, segments: Seq<Seq<char>>) -> StoragePathView {
        StoragePathView { root: self.root, parts: self.parts + segments }
    }

    /// This location with one segment appended.
    pub open spec fn join(self, segment: Seq<char>) -> StoragePathView {
        self.join_all(seq![segment])
    }
}

/// Copies a list of names.
fn clone_names(names: &Vec<String>) -> (res: Vec<String>)
    ensures
        res.deep_view() == names.deep_view(),
{
    let mut res: Vec<String> = Vec::new();
    for i in 0..names.len()
        invariant
            res.len() == i,
            res.deep_view() =~= names.deep_view().take(i as int),
    {
        let name = names[i].clone();
        res.push(name);
        assert(res.deep_view() =~= names.deep_view().take(i as int + 1)) by {
            assert(res@[i as int] == names@[i as int]);
        }
    }
    assert(names.deep_view().take(names.len() as int) =~= names.deep_view());
    res
}

/// Appends copies of `names` to `dst`.
fn push_names(dst: &mut Vec<String>, names: &Vec<String>)
    ensures
        final(dst).deep_view() == old(dst).deep_view() + names.deep_view(),
{
    let ghost start = dst.deep_view();
    assert(dst.len() == start.len());
    for i in 0..names.len()
        invariant
            dst.len() == start.len() + i,
            dst.deep_view() =~= start + names.deep_view().take(i as int),
    {
        let name = names[i].clone();
        let ghost before = dst.deep_view();
        dst.push(name);
        assert(dst.deep_view() =~= before.push(names.deep_view()[i as int]));
        assert(dst.deep_view() =~= start + names.deep_view().take(i as int + 1));
    }
    assert(names.deep_view().take(names.len() as int) =~= names.deep_view());
}

impl StoragePath {
    /// The root directory itself.
    pub fn new(root: String) -> (p: StoragePath)
        ensures
            p@ == (StoragePathView { root: root@, parts: Seq::empty() }),
    {
        StoragePath { root, parts: Vec::new() }
    }

    /// This location with `segment` appended as one more name.
    pub fn joined(&self, segment: &str) -> (p: StoragePath)
        ensures
            p@ == self@.join(segment@),
    {
        let mut parts = clone_names(&self.parts);
        parts.push(segment.to_owned());
        proof {
            assert(parts.deep_view() =~= self.parts.deep_view() + seq![segment@]);
        }
        StoragePath { root: self.root.clone(), parts }
    }

    /// This location with every name of `segments` appended, in order.
    pub fn joined_all(&self, segments: &Vec<String>) -> (p: StoragePath)
        ensures
            p@ == self@.join_all(segments.deep_view()),
    {
        let mut parts = clone_names(&self.parts);
        push_names(&mut parts, segments);
        StoragePath { root: self.root.clone(), parts }
    }
}

/// One component of a path as `std::path::Path::components` yields it.
#[derive(Clone, Debug, PartialEq, Eq)]
pub enum PathPart {
    Prefix,
    RootDir,
    CurDir,
    ParentDir,
    Normal(String),
}

/// What a `PathPart` denotes.
pub enum PathPartView {
    Prefix,
    RootDir,
    CurDir,
    ParentDir,
    Normal(Seq<char>),
}

impl View for PathPart {
    type V = PathPartView;

    open spec fn view(&self) -> PathPartView {
        match self {
            PathPart::Prefix => PathPartView::Prefix,
            PathPart::RootDir => PathPartView::RootDir,
            PathPart::CurDir => PathPartView::CurDir,
            PathPart::ParentDir => PathPartView::ParentDir,
            PathPart::Normal(name) => PathPartView::Normal(name@),
        }
    }
}

/// The views of a list of path components.
pub open spec fn part_views(parts: Seq<PathPart>) -> Seq<PathPartView> {
    parts.map_values(|p: PathPart| p@)
}

/// A name that std's path splitting yields as a normal component: not
/// empty, not `.` or `..` (those are the current and parent directory), and
/// without the separator `/` (components are what lies between separators).
pub open spec fn is_component_name(s: Seq<char>) -> bool {
    &&& s.len() > 0
    &&& s != seq!['.']
    &&& s != seq!['.', '.']
    &&& forall|i: int| 0 <= i < s.len() ==> #[trigger] s[i] != '/'
}

/// Every normal component among `parts` has a component name.
pub open spec fn normal_parts_are_names(parts: Seq<PathPartView>) -> bool {
    forall|i: int|
        0 <= i < parts.len() ==> (#[trigger] parts[i] matches PathPartView::Normal(name)
            ==> is_component_name(name))
}

/// The pieces of `s` between `/` separators, in order; empty pieces (from
/// a leading, trailing or repeated `/`) included.
pub open spec fn split_slash(s: Seq<char>) -> Seq<Seq<char>>
    decreases s.len(),
{
    if s.len() == 0 {
        seq![Seq::empty()]
    } else {
        let rest = split_slash(s.drop_first());
        if s[0] == '/' {
            seq![Seq::<char>::empty()] + rest
        } else {
            rest.update(0, seq![s[0]] + rest[0])
        }
    }
}

/// The components the pieces of a path stand for: empty pieces and `.` are
/// dropped, `..` is the parent directory, any other piece a name.
pub open spec fn piece_parts(pieces: Seq<Seq<char>>) -> Seq<PathPartView>
    decreases pieces.len(),
{
    if pieces.len() == 0 {
        Seq::empty()
    } else {
        let p = pieces[0];
        let rest = piece_parts(pieces.drop_first());
        if p.len() == 0 || p == seq!['.'] {
            rest
        } else if p == seq!['.', '.'] {
            seq![PathPartView::ParentDir] + rest
        } else {
            seq![PathPartView::Normal(p)] + rest
        }
    }
}

/// The components of `path` on a Unix target, as the std documentation of
/// `Path::components` and `Component` gives them: a leading `/` is the root
/// directory; repeated separators and a trailing `/` are ignored; `.` is
/// dropped except at the beginning of a relative path, where it is the
/// current directory; `..` is the parent directory; every other piece
/// between separators is a normal component.
pub open spec fn unix_path_components(path: Seq<char>) -> Seq<PathPartView> {
    let lead = if path.len() > 0 && path[0] == '/' {
        seq![PathPartView::RootDir]
    } else if path.len() > 0 && path[0] == '.' && (path.len() == 1 || path[1] == '/') {
        seq![PathPartView::CurDir]
    } else {
        Seq::empty()
    };
    lead + piece_parts(split_slash(path))
}

/// Splits `path` into its components with `std::path::Path::components`.
/// What std yields is claimed for Unix targets (Android among them), where
/// `/` is the only separator and there are no prefixes; see
/// `unix_path_components`.
#[verifier::external_body]
pub(crate) fn path_components(path: &str) -> (parts: Vec<PathPart>)
    ensures
        part_views(parts@) == unix_path_components(path@),
{
    std::path::Path::new(path).components().map(|c| match c {
        std::path::Component::Prefix(_) => PathPart::Prefix,
        std::path::Component::RootDir => PathPart::RootDir,
        std::path::Component::CurDir => PathPart::CurDir,
        std::path::Component::ParentDir => PathPart::ParentDir,
        std::path::Component::Normal(name) => PathPart::Normal(name.to_string_lossy().into_owned()),
    }).collect()
}

proof fn lemma_split_slash_has_no_separator(s: Seq<char>)
    ensures
        split_slash(s).len() > 0,
        forall|i: int, j: int|
            0 <= i < split_slash(s).len() && 0 <= j < split_slash(s)[i].len() ==> #[trigger] split_slash(s)[i][j]
                != '/',
    decreases s.len(),
{
    if s.len() > 0 {
        let rest = split_slash(s.drop_first());
        lemma_split_slash_has_no_separator(s.drop_first());
        if s[0] != '/' {
            let first = seq![s[0]] + rest[0];
            assert forall|i: int, j: int|
                0 <= i < split_slash(s).len() && 0 <= j < split_slash(s)[i].len() implies #[trigger] split_slash(s)[i][j]
                    != '/' by {
                if i == 0 {
                    assert(split_slash(s)[0] == first);
                    if j > 0 {
                        assert(first[j] == rest[0][j - 1]);
                    }
                } else {
                    assert(split_slash(s)[i] == rest[i]);
                }
            }
        } else {
            assert forall|i: int, j: int|
                0 <= i < split_slash(s).len() && 0 <= j < split_slash(s)[i].len() implies #[trigger] split_slash(s)[i][j]
                    != '/' by {
                if i > 0 {
                    assert(split_slash(s)[i] == rest[i - 1]);
                }
            }
        }
    }
}

proof fn lemma_piece_parts_names(pieces: Seq<Seq<char>>)
    requires
        forall|i: int, j: int| 0 <= i < pieces.len() && 0 <= j < pieces[i].len() ==> #[trigger] pieces[i][j] != '/',
    ensures
        normal_parts_are_names(piece_parts(pieces)),
    decreases pieces.len(),
{
    if pieces.len() > 0 {
        let rest = pieces.drop_first();
        assert forall|i: int, j: int| 0 <= i < rest.len() && 0 <= j < rest[i].len() implies #[trigger] rest[i][j]
            != '/' by {
            assert(rest[i] == pieces[i + 1]);
        }
        lemma_piece_parts_names(rest);
        let p = pieces[0];
        let tail = piece_parts(rest);
        if !(p.len() == 0 || p == seq!['.']) {
            let head = if p == seq!['.', '.'] {
                PathPartView::ParentDir
            } else {
                PathPartView::Normal(p)
            };
            assert(piece_parts(pieces) == seq![head] + tail);
            assert forall|i: int| 0 <= i < (seq![head] + tail).len() implies (#[trigger] (seq![head]
                + tail)[i] matches PathPartView::Normal(name) ==> is_component_name(name)) by {
                if i == 0 {
                    assert forall|j: int| 0 <= j < p.len() implies #[trigger] p[j] != '/' by {
                        assert(pieces[0][j] != '/');
                    }
                } else {
                    assert((seq![head] + tail)[i] == tail[i - 1]);
                }
            }
        }
    }
}

/// On a Unix target every normal component of a path is a name of one
/// directory level: not empty, not `.` or `..`, and without `/`.
pub proof fn lemma_unix_components_are_names(path: Seq<char>)
    ensures
        normal_parts_are_names(unix_path_components(path)),
{
    lemma_split_slash_has_no_separator(path);
    lemma_piece_parts_names(split_slash(path));
    let lead = if path.len() > 0 && path[0] == '/' {
        seq![PathPartView::RootDir]
    } else if path.len() > 0 && path[0] == '.' && (path.len() == 1 || path[1] == '/') {
        seq![PathPartView::CurDir]
    } else {
        Seq::empty()
    };
    let tail = piece_parts(split_slash(path));
    assert(unix_path_components(path) == lead + tail);
    assert forall|i: int| 0 <= i < (lead + tail).len() implies (#[trigger] (lead + tail)[i] matches PathPartView::Normal(
        name,
    ) ==> is_component_name(name)) by {
        if i >= lead.len() {
            assert((lead + tail)[i] == tail[i - lead.len()]);
        }
    }
}

} // verus!
