//! Slash-separated paths: their components, and the bytes they are written with.
//!
//! Two paths are the same path when their components are the same, however
//! they are written: repeated and trailing slashes and inner `.` components
//! carry no meaning. The bytes are kept nevertheless, for whoever wants to see
//! the path as it came. They need not be text.

use vstd::prelude::*;

use crate::bytes::{bytes_equal, copy_bytes, copy_range, pieces_view, split, split_bytes};
use crate::text::{lossy_string, lossy_text};

verus! {

/// One component of a path.
#[derive(Debug, Clone, PartialEq, Eq)]
pub enum Component {
    /// The leading slash of an absolute path.
    RootDir,
    /// A leading `.`.
    CurDir,
    /// `..`
    ParentDir,
    /// A file or directory name.
    Normal(Vec<u8>),
}

/// What a [`Component`] is, as a value.
pub enum Part {
    RootDir,
    CurDir,
    ParentDir,
    Normal(Seq<u8>),
}

impl View for Component {
    type V = Part;

    open spec fn view(&self) -> Part {
        match *self {
            Component::RootDir => Part::RootDir,
            Component::CurDir => Part::CurDir,
            Component::ParentDir => Part::ParentDir,
            Component::Normal(name) => Part::Normal(name@),
        }
    }
}

/// A path.
#[derive(Debug, Clone, Eq)]
pub struct PathBuf {
    components: Vec<Component>,
    text: Vec<u8>,
}

impl View for PathBuf {
    type V = Seq<Part>;

    closed spec fn view(&self) -> Seq<Part> {
        parts_view(self.components@)
    }
}

/// A path, and the bytes that it is written with.
pub struct WrittenPath {
    pub path: Seq<Part>,
    pub text: Seq<u8>,
}

impl PathBuf {
    /// The bytes that the path is written with.
    pub closed spec fn written(&self) -> Seq<u8> {
        self.text@
    }

    /// The path together with its bytes.
    pub open spec fn spelled(&self) -> WrittenPath {
        WrittenPath { path: self@, text: self.written() }
    }
}

impl PartialEq for PathBuf {
    fn eq(&self, other: &PathBuf) -> (same: bool) {
        self.same(other)
    }
}

impl vstd::std_specs::cmp::PartialEqSpecImpl for PathBuf {
    open spec fn obeys_eq_spec() -> bool {
        true
    }

    open spec fn eq_spec(&self, other: &PathBuf) -> bool {
        self@ == other@
    }
}

/// The components in a list.
pub open spec fn parts_view(components: Seq<Component>) -> Seq<Part> {
    components.map_values(|component: Component| component@)
}

/// The paths in a list.
pub open spec fn paths_view(paths: Seq<PathBuf>) -> Seq<Seq<Part>> {
    paths.map_values(|path: PathBuf| path@)
}

/// The path in an option.
pub open spec fn option_view(path: Option<PathBuf>) -> Option<Seq<Part>> {
    match path {
        Some(path) => Some(path@),
        None => None,
    }
}

/// The paths in a list, with their bytes.
pub open spec fn spelled_paths(paths: Seq<PathBuf>) -> Seq<WrittenPath> {
    paths.map_values(|path: PathBuf| path.spelled())
}

/// The path in an option, with its bytes.
pub open spec fn option_spelled(path: Option<PathBuf>) -> Option<WrittenPath> {
    match path {
        Some(path) => Some(path.spelled()),
        None => None,
    }
}

/// The paths in a list, without their bytes.
pub open spec fn plain_paths(paths: Seq<WrittenPath>) -> Seq<Seq<Part>> {
    paths.map_values(|path: WrittenPath| path.path)
}

/// The path in an option, without its bytes.
pub open spec fn option_plain(path: Option<WrittenPath>) -> Option<Seq<Part>> {
    match path {
        Some(path) => Some(path.path),
        None => None,
    }
}

/// The enclosing path, with its bytes.
pub open spec fn written_parent(path: WrittenPath) -> Option<WrittenPath> {
    match parent_of(path.path) {
        Some(parent) => Some(WrittenPath { path: parent, text: parent_bytes(path.text) }),
        None => None,
    }
}

/// The bytes of the path in an option.
pub open spec fn option_written(path: Option<PathBuf>) -> Option<Seq<u8>> {
    match path {
        Some(path) => Some(path.written()),
        None => None,
    }
}

pub open spec fn slash() -> u8 {
    0x2f
}

pub open spec fn dot() -> Seq<u8> {
    seq![0x2eu8]
}

pub open spec fn dot_dot() -> Seq<u8> {
    seq![0x2eu8, 0x2eu8]
}

/// The name of the repository directory, `.git`.
pub open spec fn dot_git() -> Seq<u8> {
    seq![0x2eu8, 0x67u8, 0x69u8, 0x74u8]
}

/// The components that one stretch between slashes stands for. Only a `.` that
/// opens a relative path is kept.
pub open spec fn piece_parts(piece: Seq<u8>, leading: bool) -> Seq<Part> {
    if piece.len() == 0 {
        seq![]
    } else if piece == dot() {
        if leading {
            seq![Part::CurDir]
        } else {
            seq![]
        }
    } else if piece == dot_dot() {
        seq![Part::ParentDir]
    } else {
        seq![Part::Normal(piece)]
    }
}

/// The components of a list of stretches that follows the first one.
pub open spec fn rest_parts(pieces: Seq<Seq<u8>>) -> Seq<Part>
    decreases pieces.len(),
{
    if pieces.len() == 0 {
        seq![]
    } else {
        rest_parts(pieces.drop_last()) + piece_parts(pieces.last(), false)
    }
}

/// The components of a path that is written as `text`. The first stretch is
/// empty exactly when the path is absolute or empty.
pub open spec fn parse_path(text: Seq<u8>) -> Seq<Part> {
    let pieces = split(text, slash());
    let head = if text.len() > 0 && text[0] == slash() {
        seq![Part::RootDir]
    } else {
        piece_parts(pieces[0], true)
    };
    head + rest_parts(pieces.skip(1))
}

/// The enclosing path: all components but the last. A root directory and an
/// empty path have none.
pub open spec fn parent_of(path: Seq<Part>) -> Option<Seq<Part>> {
    if path.len() == 0 || path.last() == Part::RootDir {
        None
    } else {
        Some(path.drop_last())
    }
}

/// The last component, when it is a name.
pub open spec fn file_name_of(path: Seq<Part>) -> Option<Seq<u8>> {
    if path.len() > 0 && path.last() is Normal {
        Some(path.last()->Normal_0)
    } else {
        None
    }
}

/// Whether `path` is `base` or lies below it.
pub open spec fn is_under(path: Seq<Part>, base: Seq<Part>) -> bool {
    base.len() <= path.len() && path.take(base.len() as int) == base
}

/// `relative` seen from `base`. An absolute path stands for itself, and a
/// leading `.` disappears behind a non-empty base.
pub open spec fn join_paths(base: Seq<Part>, relative: Seq<Part>) -> Seq<Part> {
    if base.len() == 0 || (relative.len() > 0 && relative[0] == Part::RootDir) {
        relative
    } else if relative.len() > 0 && relative[0] == Part::CurDir {
        base + relative.skip(1)
    } else {
        base + relative
    }
}

/// `base` with the name `name` below it.
pub open spec fn child_path(base: Seq<Part>, name: Seq<u8>) -> Seq<Part> {
    base.push(Part::Normal(name))
}

pub open spec fn part_bytes(part: Part) -> Seq<u8> {
    match part {
        Part::RootDir => seq![],
        Part::CurDir => dot(),
        Part::ParentDir => dot_dot(),
        Part::Normal(name) => name,
    }
}

/// The path written with single slashes.
pub open spec fn path_bytes(path: Seq<Part>) -> Seq<u8>
    decreases path.len(),
{
    if path.len() == 0 {
        seq![]
    } else if path.len() == 1 {
        if path[0] == Part::RootDir {
            seq![slash()]
        } else {
            part_bytes(path[0])
        }
    } else if path.len() == 2 && path[0] == Part::RootDir {
        seq![slash()] + part_bytes(path[1])
    } else {
        path_bytes(path.drop_last()) + seq![slash()] + part_bytes(path.last())
    }
}

/// The bytes of `relative` behind those of `base`. A slash stands between them
/// unless one is there already, and an absolute path stands for itself.
pub open spec fn joined_bytes(base: Seq<u8>, relative: Seq<u8>) -> Seq<u8> {
    if relative.len() > 0 && relative[0] == slash() {
        relative
    } else if base.len() == 0 || base.last() == slash() {
        base + relative
    } else {
        base.push(slash()) + relative
    }
}

/// How many bytes at the start of a path are no name: the slash of an absolute
/// path, or a `.` that opens a relative one.
pub open spec fn head_length(text: Seq<u8>) -> nat {
    if text.len() > 0 && (text[0] == slash() || (text[0] == 0x2e && (text.len() == 1 || text[1]
        == slash()))) {
        1
    } else {
        0
    }
}

/// The bytes without the slashes and `.` components at their end, down to the
/// first `head` bytes.
pub open spec fn without_tail(text: Seq<u8>, head: nat) -> Seq<u8>
    decreases text.len(),
{
    if text.len() <= head {
        text
    } else if text.last() == slash() || (text.last() == 0x2e && text.len() > 1 && text[text.len()
        - 2] == slash()) {
        without_tail(text.drop_last(), head)
    } else {
        text
    }
}

/// The bytes up to the last slash, down to the first `head` bytes.
pub open spec fn without_name(text: Seq<u8>, head: nat) -> Seq<u8>
    decreases text.len(),
{
    if text.len() <= head || text.last() == slash() {
        text
    } else {
        without_name(text.drop_last(), head)
    }
}

/// The bytes of the enclosing path: what stands before the last name, without
/// the slashes in between.
pub open spec fn parent_bytes(text: Seq<u8>) -> Seq<u8> {
    let head = head_length(text);
    let bare = without_tail(text, head);
    if bare.len() <= head {
        Seq::empty()
    } else {
        without_tail(without_name(bare, head), head)
    }
}

/// The bytes of a path with components below it.
pub open spec fn bytes_below(base: Seq<u8>, parts: Seq<Part>) -> Seq<u8>
    decreases parts.len(),
{
    if parts.len() == 0 {
        base
    } else {
        joined_bytes(bytes_below(base, parts.drop_last()), part_bytes(parts.last()))
    }
}

impl Component {
    /// The bytes that stand for the component between slashes.
    fn bytes(&self) -> (bytes: Vec<u8>)
        ensures
            bytes@ == part_bytes(self@),
    {
        let mut bytes: Vec<u8> = Vec::new();
        match self {
            Component::RootDir => {},
            Component::CurDir => {
                bytes.push(0x2e);
            },
            Component::ParentDir => {
                bytes.push(0x2e);
                bytes.push(0x2e);
            },
            Component::Normal(name) => {
                bytes = copy_bytes(name);
            },
        }
        assert(bytes@ =~= part_bytes(self@));
        bytes
    }

    /// Whether two components are the same.
    pub fn same(&self, other: &Component) -> (same: bool)
        ensures
            same == (self@ == other@),
    {
        match (self, other) {
            (Component::RootDir, Component::RootDir) => true,
            (Component::CurDir, Component::CurDir) => true,
            (Component::ParentDir, Component::ParentDir) => true,
            (Component::Normal(left), Component::Normal(right)) => bytes_equal(left, right),
            _ => false,
        }
    }

    /// A copy.
    pub fn duplicate(&self) -> (copy: Component)
        ensures
            copy@ == self@,
    {
        match self {
            Component::RootDir => Component::RootDir,
            Component::CurDir => Component::CurDir,
            Component::ParentDir => Component::ParentDir,
            Component::Normal(name) => Component::Normal(copy_bytes(name)),
        }
    }

    /// Whether this is the name `.git`.
    pub fn is_dot_git(&self) -> (git: bool)
        ensures
            git == (self@ == Part::Normal(dot_git())),
    {
        match self {
            Component::Normal(name) => is_dot_git_name(name),
            _ => false,
        }
    }
}

/// Whether `name` is `.git`.
pub fn is_dot_git_name(name: &Vec<u8>) -> (git: bool)
    ensures
        git == (name@ == dot_git()),
{
    let git = name.len() == 4 && name[0] == 0x2e && name[1] == 0x67 && name[2] == 0x69 && name[3]
        == 0x74;
    proof {
        if git {
            assert(name@ =~= dot_git());
        }
    }
    git
}

/// Appends the components of one stretch.
fn push_piece(components: &mut Vec<Component>, piece: &Vec<u8>, leading: bool)
    ensures
        parts_view(final(components)@) == parts_view(old(components)@) + piece_parts(piece@, leading),
{
    let ghost before = parts_view(components@);
    let is_dot = piece.len() == 1 && piece[0] == 0x2e;
    let is_dot_dot = piece.len() == 2 && piece[0] == 0x2e && piece[1] == 0x2e;
    proof {
        if is_dot {
            assert(piece@ =~= dot());
        }
        if is_dot_dot {
            assert(piece@ =~= dot_dot());
        }
    }
    if piece.len() == 0 {
    } else if is_dot {
        if leading {
            components.push(Component::CurDir);
        }
    } else if is_dot_dot {
        components.push(Component::ParentDir);
    } else {
        components.push(Component::Normal(copy_bytes(piece)));
    }
    assert(parts_view(components@) =~= before + piece_parts(piece@, leading));
}

/// Components written with single slashes.
fn components_bytes(components: &Vec<Component>) -> (text: Vec<u8>)
    ensures
        text@ == path_bytes(parts_view(components@)),
{
    let ghost path = parts_view(components@);
    let mut text: Vec<u8> = Vec::new();
    let mut i: usize = 0;
    assert(path.take(0) =~= Seq::<Part>::empty());
    while i < components.len()
        invariant
            i <= path.len(),
            path == parts_view(components@),
            text@ == path_bytes(path.take(i as int)),
        decreases path.len() - i,
    {
        let ghost prefix = path.take(i + 1);
        let ghost before = text@;
        assert(prefix.drop_last() =~= path.take(i as int));
        let rooted = match &components[0] {
            Component::RootDir => true,
            _ => false,
        };
        assert(rooted == (path[0] == Part::RootDir));
        let slashed = if i == 0 {
            rooted
        } else {
            i > 1 || !rooted
        };
        if slashed {
            text.push(0x2f);
        }
        let mut bytes = components[i].bytes();
        text.append(&mut bytes);
        proof {
            let part = path[i as int];
            if i == 0 {
                assert(text@ =~= path_bytes(prefix));
            } else if i == 1 && rooted {
                assert(path.take(1) =~= seq![Part::RootDir]);
                assert(text@ =~= seq![slash()] + part_bytes(part));
            } else {
                assert(text@ =~= before + seq![slash()] + part_bytes(part));
            }
        }
        i += 1;
    }
    assert(path.take(path.len() as int) =~= path);
    text
}

/// Takes slashes and `.` components off the end.
fn strip_tail(text: &mut Vec<u8>, head: usize)
    ensures
        final(text)@ == without_tail(old(text)@, head as nat),
{
    let ghost all = text@;
    while text.len() > head && (text[text.len() - 1] == 0x2f || (text[text.len() - 1] == 0x2e
        && text.len() > 1 && text[text.len() - 2] == 0x2f))
        invariant
            without_tail(text@, head as nat) == without_tail(all, head as nat),
        decreases text@.len(),
    {
        let ghost before = text@;
        text.pop();
        assert(text@ =~= before.drop_last());
    }
}

/// Takes the bytes behind the last slash off.
fn strip_name(text: &mut Vec<u8>, head: usize)
    ensures
        final(text)@ == without_name(old(text)@, head as nat),
{
    let ghost all = text@;
    while text.len() > head && text[text.len() - 1] != 0x2f
        invariant
            without_name(text@, head as nat) == without_name(all, head as nat),
        decreases text@.len(),
    {
        let ghost before = text@;
        text.pop();
        assert(text@ =~= before.drop_last());
    }
}

/// The bytes of one path behind those of another.
fn join_bytes(base: &Vec<u8>, relative: &Vec<u8>) -> (joined: Vec<u8>)
    ensures
        joined@ == joined_bytes(base@, relative@),
{
    if relative.len() > 0 && relative[0] == 0x2f {
        return copy_bytes(relative);
    }
    let mut joined = copy_bytes(base);
    if base.len() > 0 && base[base.len() - 1] != 0x2f {
        joined.push(0x2f);
    }
    let mut rest = copy_bytes(relative);
    joined.append(&mut rest);
    joined
}

impl PathBuf {
    /// The empty path.
    pub fn empty() -> (path: PathBuf)
        ensures
            path@ == Seq::<Part>::empty(),
            path.written() == Seq::<u8>::empty(),
    {
        let path = PathBuf { components: Vec::new(), text: Vec::new() };
        assert(path@ =~= Seq::<Part>::empty());
        assert(path.written() =~= Seq::<u8>::empty());
        path
    }

    /// A path of components, written with single slashes.
    fn of_components(components: Vec<Component>) -> (path: PathBuf)
        ensures
            path@ == parts_view(components@),
            path.written() == path_bytes(path@),
    {
        let text = components_bytes(&components);
        PathBuf { components, text }
    }

    /// How many components there are.
    pub fn count(&self) -> (count: usize)
        ensures
            count == self@.len(),
    {
        self.components.len()
    }

    /// One component.
    pub fn component(&self, index: usize) -> (component: &Component)
        requires
            index < self@.len(),
        ensures
            component@ == self@[index as int],
    {
        &self.components[index]
    }

    /// Components can be counted.
    pub(crate) proof fn lemma_count(&self)
        ensures
            self@.len() <= usize::MAX,
    {
        assert(self.components.len() == self@.len());
    }

    /// Reads a path as it is written.
    pub fn from_bytes(text: &[u8]) -> (path: PathBuf)
        ensures
            path@ == parse_path(text@),
            path.written() == text@,
    {
        let pieces = split_bytes(text, 0x2f);
        let ghost split_pieces = split(text@, slash());
        let mut components: Vec<Component> = Vec::new();
        assert(pieces@.len() == split_pieces.len());
        assert(pieces@[0]@ == split_pieces[0]);
        if text.len() > 0 && text[0] == 0x2f {
            components.push(Component::RootDir);
            assert(parts_view(components@) =~= seq![Part::RootDir]);
        } else {
            push_piece(&mut components, &pieces[0], true);
            assert(parts_view(components@) =~= piece_parts(split_pieces[0], true));
        }
        let ghost head = parts_view(components@);
        let ghost tail = split_pieces.skip(1);
        let mut i: usize = 1;
        assert(tail.take(0) =~= Seq::<Seq<u8>>::empty());
        assert(head + rest_parts(tail.take(0)) =~= head);
        while i < pieces.len()
            invariant
                1 <= i <= pieces@.len(),
                split_pieces == pieces_view(pieces@),
                tail == split_pieces.skip(1),
                parts_view(components@) == head + rest_parts(tail.take(i - 1)),
            decreases pieces@.len() - i,
        {
            push_piece(&mut components, &pieces[i], false);
            proof {
                assert(tail.take(i as int).drop_last() =~= tail.take(i - 1));
                assert(tail.take(i as int).last() == pieces@[i as int]@);
                assert(parts_view(components@) =~= head + rest_parts(
                    tail.take(i as int),
                ));
            }
            i += 1;
        }
        assert(tail.take(pieces@.len() - 1) =~= tail);
        let text = copy_range(text, 0, text.len());
        PathBuf { components, text }
    }

    /// A copy.
    pub fn duplicate(&self) -> (copy: PathBuf)
        ensures
            copy@ == self@,
            copy.written() == self.written(),
    {
        let components = self.copy_components(self.components.len());
        assert(self@.take(self@.len() as int) =~= self@);
        PathBuf { components, text: copy_bytes(&self.text) }
    }

    /// The same path, written otherwise.
    pub(crate) fn written_as(&self, text: &Vec<u8>) -> (path: PathBuf)
        ensures
            path@ == self@,
            path.written() == text@,
    {
        let components = self.copy_components(self.components.len());
        assert(self@.take(self@.len() as int) =~= self@);
        PathBuf { components, text: copy_bytes(text) }
    }

    /// The first `count` components, written with single slashes.
    pub fn take(&self, count: usize) -> (prefix: PathBuf)
        requires
            count <= self@.len(),
        ensures
            prefix@ == self@.take(count as int),
            prefix.written() == path_bytes(prefix@),
    {
        PathBuf::of_components(self.copy_components(count))
    }

    fn copy_components(&self, count: usize) -> (components: Vec<Component>)
        requires
            count <= self@.len(),
        ensures
            parts_view(components@) == self@.take(count as int),
    {
        let mut components: Vec<Component> = Vec::new();
        let mut i: usize = 0;
        while i < count
            invariant
                i <= count <= self@.len(),
                parts_view(components@) == self@.take(i as int),
            decreases count - i,
        {
            let ghost before = components@;
            components.push(self.components[i].duplicate());
            i += 1;
            assert(parts_view(components@) =~= parts_view(before).push(self@[i - 1]));
            assert(parts_view(components@) =~= self@.take(i as int));
        }
        assert(parts_view(components@) =~= self@.take(count as int));
        components
    }

    /// Whether the first `count` components of two paths agree.
    fn same_prefix(&self, other: &PathBuf, count: usize) -> (same: bool)
        requires
            count <= self@.len(),
            count <= other@.len(),
        ensures
            same == (self@.take(count as int) == other@.take(count as int)),
    {
        let mut i: usize = 0;
        while i < count
            invariant
                i <= count,
                count <= self@.len(),
                count <= other@.len(),
                forall|j: int| 0 <= j < i ==> self@[j] == other@[j],
            decreases count - i,
        {
            if !self.components[i].same(&other.components[i]) {
                proof {
                    assert(self@.take(count as int)[i as int] != other@.take(count as int)[i as int]);
                }
                return false;
            }
            i += 1;
        }
        assert(self@.take(count as int) =~= other@.take(count as int));
        true
    }

    /// Whether two paths are the same path.
    pub fn same(&self, other: &PathBuf) -> (same: bool)
        ensures
            same == (self@ == other@),
    {
        if self.components.len() != other.components.len() {
            return false;
        }
        let same = self.same_prefix(other, self.components.len());
        proof {
            assert(self@.take(self@.len() as int) =~= self@);
            assert(other@.take(other@.len() as int) =~= other@);
        }
        same
    }

    /// The enclosing path.
    pub fn parent(&self) -> (parent: Option<PathBuf>)
        ensures
            option_view(parent) == parent_of(self@),
            parent matches Some(parent) ==> parent.written() == parent_bytes(self.written()),
    {
        let count = self.components.len();
        if count == 0 {
            return None;
        }
        if let Component::RootDir = self.components[count - 1] {
            return None;
        }
        assert(self@.take(count - 1) =~= self@.drop_last());
        let components = self.copy_components(count - 1);
        let mut text = copy_bytes(&self.text);
        let head: usize = if text.len() > 0 && (text[0] == 0x2f || (text[0] == 0x2e && (text.len()
            == 1 || text[1] == 0x2f))) {
            1
        } else {
            0
        };
        strip_tail(&mut text, head);
        if text.len() <= head {
            text = Vec::new();
            assert(text@ =~= Seq::<u8>::empty());
        } else {
            strip_name(&mut text, head);
            strip_tail(&mut text, head);
        }
        Some(PathBuf { components, text })
    }

    /// The last component, when it is a name.
    pub fn file_name(&self) -> (name: Option<Vec<u8>>)
        ensures
            (match name {
                Some(name) => Some(name@),
                None => None,
            }) == file_name_of(self@),
    {
        let count = self.components.len();
        if count == 0 {
            return None;
        }
        match &self.components[count - 1] {
            Component::Normal(name) => Some(copy_bytes(name)),
            _ => None,
        }
    }

    /// Whether this path is `base` or lies below it.
    pub fn starts_with(&self, base: &PathBuf) -> (under: bool)
        ensures
            under == is_under(self@, base@),
    {
        if base.components.len() > self.components.len() {
            return false;
        }
        assert(base@.take(base@.len() as int) =~= base@);
        self.same_prefix(base, base.components.len())
    }

    /// What is left of this path below `base`, written with single slashes.
    pub fn strip_prefix(&self, base: &PathBuf) -> (rest: Option<PathBuf>)
        ensures
            option_view(rest) == (if is_under(self@, base@) {
                Some(self@.skip(base@.len() as int))
            } else {
                None
            }),
            rest matches Some(rest) ==> rest.written() == path_bytes(rest@),
    {
        if !self.starts_with(base) {
            return None;
        }
        Some(self.suffix(base.components.len()))
    }

    /// The components from `from` on, written with single slashes.
    fn suffix(&self, from: usize) -> (rest: PathBuf)
        requires
            from <= self@.len(),
        ensures
            rest@ == self@.skip(from as int),
            rest.written() == path_bytes(rest@),
    {
        let mut components: Vec<Component> = Vec::new();
        let mut i: usize = from;
        while i < self.components.len()
            invariant
                from <= i <= self@.len(),
                parts_view(components@) == self@.subrange(from as int, i as int),
            decreases self@.len() - i,
        {
            let ghost before = components@;
            components.push(self.components[i].duplicate());
            i += 1;
            assert(parts_view(components@) =~= parts_view(before).push(self@[i - 1]));
            assert(parts_view(components@) =~= self@.subrange(
                from as int,
                i as int,
            ));
        }
        assert(parts_view(components@) =~= self@.skip(from as int));
        PathBuf::of_components(components)
    }

    /// Appends copies of the components of `tail` from `from` on.
    fn append_from(&mut self, tail: &PathBuf, from: usize)
        requires
            from <= tail@.len(),
        ensures
            final(self)@ == old(self)@ + tail@.skip(from as int),
            final(self).written() == old(self).written(),
    {
        let ghost before = self@;
        let mut i: usize = from;
        assert(self@ =~= before + tail@.subrange(from as int, from as int));
        while i < tail.components.len()
            invariant
                from <= i <= tail@.len(),
                self@ == before + tail@.subrange(from as int, i as int),
                self.text == old(self).text,
            decreases tail@.len() - i,
        {
            let ghost held = self@;
            self.components.push(tail.components[i].duplicate());
            i += 1;
            assert(self@ =~= held.push(tail@[i - 1]));
            assert(self@ =~= before + tail@.subrange(from as int, i as int));
        }
        assert(self@ =~= before + tail@.skip(from as int));
    }

    /// `relative` seen from this path.
    pub fn join(&self, relative: &PathBuf) -> (joined: PathBuf)
        ensures
            joined@ == join_paths(self@, relative@),
            joined.written() == joined_bytes(self.written(), relative.written()),
    {
        let text = join_bytes(&self.text, &relative.text);
        let count = relative.components.len();
        if self.components.len() == 0 {
            let mut joined = relative.duplicate();
            joined.text = text;
            return joined;
        }
        if count > 0 {
            if let Component::RootDir = relative.components[0] {
                let mut joined = relative.duplicate();
                joined.text = text;
                return joined;
            }
        }
        let mut joined = self.duplicate();
        let mut from: usize = 0;
        if count > 0 {
            if let Component::CurDir = relative.components[0] {
                from = 1;
            }
        }
        joined.append_from(relative, from);
        assert(relative@.skip(0) =~= relative@);
        joined.text = text;
        joined
    }

    /// This path with a name below it.
    pub fn child(&self, name: &Vec<u8>) -> (child: PathBuf)
        ensures
            child@ == child_path(self@, name@),
            child.written() == joined_bytes(self.written(), name@),
    {
        let mut child = self.duplicate();
        child.text = join_bytes(&self.text, name);
        child.components.push(Component::Normal(copy_bytes(name)));
        assert(child@ =~= child_path(self@, name@));
        child
    }

    /// The bytes that the path is written with.
    pub fn to_bytes(&self) -> (text: Vec<u8>)
        ensures
            text@ == self.written(),
    {
        copy_bytes(&self.text)
    }

    /// The path as text for a message.
    pub fn display(&self) -> (text: String)
        ensures
            text@ == lossy_text(self.written()),
    {
        lossy_string(&self.text)
    }
}

/// A copy of a list of paths.
pub fn copy_paths(paths: &Vec<PathBuf>) -> (copy: Vec<PathBuf>)
    ensures
        paths_view(copy@) == paths_view(paths@),
        spelled_paths(copy@) == spelled_paths(paths@),
{
    let mut copy: Vec<PathBuf> = Vec::new();
    let mut i: usize = 0;
    while i < paths.len()
        invariant
            i <= paths@.len(),
            paths_view(copy@) == paths_view(paths@).take(i as int),
            spelled_paths(copy@) == spelled_paths(paths@).take(i as int),
        decreases paths@.len() - i,
    {
        let ghost before = copy@;
        copy.push(paths[i].duplicate());
        i += 1;
        assert(paths_view(copy@) =~= paths_view(before).push(paths_view(paths@)[i - 1]));
        assert(paths_view(copy@) =~= paths_view(paths@).take(i as int));
        assert(spelled_paths(copy@) =~= spelled_paths(before).push(spelled_paths(paths@)[i - 1]));
        assert(spelled_paths(copy@) =~= spelled_paths(paths@).take(i as int));
    }
    assert(paths_view(copy@) =~= paths_view(paths@));
    assert(spelled_paths(copy@) =~= spelled_paths(paths@));
    copy
}

/// A copy of an optional path.
pub fn copy_option_path(path: &Option<PathBuf>) -> (copy: Option<PathBuf>)
    ensures
        option_view(copy) == option_view(*path),
        option_written(copy) == option_written(*path),
{
    match path {
        Some(path) => Some(path.duplicate()),
        None => None,
    }
}

/// Whether two optional paths are the same.
pub fn same_option_path(left: &Option<PathBuf>, right: &Option<PathBuf>) -> (same: bool)
    ensures
        same == (option_view(*left) == option_view(*right)),
{
    match (left, right) {
        (Some(left), Some(right)) => left.same(right),
        (None, None) => true,
        _ => false,
    }
}

/// Whether a list holds a path.
pub fn holds_path(paths: &Vec<PathBuf>, path: &PathBuf) -> (held: bool)
    ensures
        held == paths_view(paths@).contains(path@),
{
    let mut i: usize = 0;
    while i < paths.len()
        invariant
            i <= paths@.len(),
            forall|j: int| 0 <= j < i ==> paths_view(paths@)[j] != path@,
        decreases paths@.len() - i,
    {
        if paths[i].same(path) {
            assert(paths_view(paths@)[i as int] == path@);
            return true;
        }
        i += 1;
    }
    false
}

} // verus!
