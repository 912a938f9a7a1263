//! The tree of directories: nodes and the root, and how a path is resolved
//! to a file.
use crate::file::File;
use crate::name_map::{
    distinct, entries_map, find, lemma_absent, lemma_found, lemma_len, lemma_names, lemma_update,
    upsert, NameMap,
};
use crate::path::{
    is_segment, lemma_segments_are_segments, lemma_segments_around_separator,
    lemma_segments_between_separators, lemma_segments_of_segment, lemma_segments_of_separators,
    segments, Path, SEPARATOR,
};
use vstd::prelude::*;

verus! {

/// The directories below one place of the tree, each under a name of its
/// own: a map from names, taken as sequences of characters, to directories.
#[verifier::reject_recursive_types(H)]
pub struct NodeMap<H> {
    names: Vec<String>,
    nodes: Vec<Node<H>>,
}

impl<H> View for NodeMap<H> {
    type V = Map<Seq<char>, Node<H>>;

    closed spec fn view(&self) -> Map<Seq<char>, Node<H>> {
        entries_map(self.names@, self.nodes@)
    }
}

impl<H> NodeMap<H> {
    /// Each name has its directory at the same place, and no name occurs
    /// twice.
    #[verifier::type_invariant]
    spec fn well_formed(&self) -> bool {
        self.names.len() == self.nodes.len() && distinct(self.names@)
    }

    /// A collection that holds nothing.
    pub fn new() -> (m: Self)
        ensures
            m@ == Map::<Seq<char>, Node<H>>::empty(),
    {
        let m = NodeMap { names: Vec::new(), nodes: Vec::new() };
        assert(m@ =~= Map::<Seq<char>, Node<H>>::empty());
        m
    }

    /// The number of names.
    pub fn len(&self) -> (n: usize)
        ensures
            self@.dom().finite(),
            n == self@.len(),
    {
        proof {
            use_type_invariant(self);
            lemma_len(self.names@, self.nodes@);
        }
        self.names.len()
    }

    /// Says whether the collection holds nothing.
    pub fn is_empty(&self) -> (empty: bool)
        ensures
            empty == (self@ == Map::<Seq<char>, Node<H>>::empty()),
    {
        proof {
            use_type_invariant(self);
            lemma_len(self.names@, self.nodes@);
            if self.names.len() == 0 {
                assert(self@ =~= Map::<Seq<char>, Node<H>>::empty());
            }
        }
        self.names.len() == 0
    }

    /// The names, each once, in no order that a caller can rely on.
    pub fn names(&self) -> (names: &Vec<String>)
        ensures
            names.deep_view().no_duplicates(),
            names.deep_view().to_set() == self@.dom(),
    {
        proof {
            use_type_invariant(self);
            lemma_names(self.names, self.nodes@);
        }
        &self.names
    }

    /// Says whether a directory is called `name`.
    pub fn contains_key(&self, name: &str) -> (held: bool)
        ensures
            held == self@.contains_key(name@),
    {
        proof {
            use_type_invariant(self);
        }
        match find(&self.names, name) {
            Some(i) => {
                proof {
                    lemma_found(self.names@, self.nodes@, i as int);
                }
                true
            },
            None => {
                proof {
                    lemma_absent(self.names@, self.nodes@, name@);
                }
                false
            },
        }
    }

    /// The directory that is called `name`, if there is one.
    pub fn get(&self, name: &str) -> (node: Option<&Node<H>>)
        ensures
            match node {
                Some(n) => self@.contains_key(name@) && self@[name@] == *n,
                None => !self@.contains_key(name@),
            },
    {
        proof {
            use_type_invariant(self);
        }
        match find(&self.names, name) {
            Some(i) => {
                proof {
                    lemma_found(self.names@, self.nodes@, i as int);
                }
                Some(&self.nodes[i])
            },
            None => {
                proof {
                    lemma_absent(self.names@, self.nodes@, name@);
                }
                None
            },
        }
    }

    /// The directory that is called `name`, to be changed in place.
    pub fn get_mut(&mut self, name: &str) -> (node: Option<&mut Node<H>>)
        ensures
            match node {
                Some(n) => {
                    &&& old(self)@.contains_key(name@)
                    &&& *n == old(self)@[name@]
                    &&& final(self)@ == old(self)@.insert(name@, *final(n))
                },
                None => !old(self)@.contains_key(name@) && final(self)@ == old(self)@,
            },
    {
        proof {
            use_type_invariant(&*self);
        }
        match find(&self.names, name) {
            Some(i) => {
                proof {
                    let names = self.names@;
                    let nodes = self.nodes@;
                    lemma_found(names, nodes, i as int);
                    assert forall|n: Node<H>| #[trigger]
                        entries_map(names, nodes.update(i as int, n)) == entries_map(
                            names,
                            nodes,
                        ).insert(name@, n) by {
                        lemma_update(names, nodes, i as int, n);
                    }
                }
                Some(&mut self.nodes[i])
            },
            None => {
                proof {
                    lemma_absent(self.names@, self.nodes@, name@);
                }
                None
            },
        }
    }

    /// Puts `node` under `name`, in place of the directory that was called
    /// so before, and hands back the directory it replaces.
    pub fn insert(&mut self, name: String, node: Node<H>) -> (previous: Option<Node<H>>)
        ensures
            final(self)@ == old(self)@.insert(name@, node),
            previous == if old(self)@.contains_key(name@) {
                Some(old(self)@[name@])
            } else {
                None
            },
    {
        proof {
            use_type_invariant(&*self);
        }
        let mut whole = NodeMap::new();
        core::mem::swap(self, &mut whole);
        let NodeMap { mut names, mut nodes } = whole;
        let previous = upsert(&mut names, &mut nodes, name, node);
        *self = NodeMap { names, nodes };
        previous
    }
}

/// A directory.
///
/// It owns the file that describes the directory itself, the directories
/// below it and the files in it. Directories and files are named apart: a
/// directory and a file of one node may have the same name.
#[verifier::reject_recursive_types(H)]
pub struct Node<H> {
    file: File<H>,
    childrens: NodeMap<H>,
    files: NameMap<File<H>>,
}

impl<H> Node<H> {
    /// The file that describes the directory itself.
    pub closed spec fn spec_self_file(&self) -> File<H> {
        self.file
    }

    /// The directories below this one, by name.
    pub closed spec fn spec_childrens(&self) -> Map<Seq<char>, Node<H>> {
        self.childrens@
    }

    /// The files in this directory, by name.
    pub closed spec fn spec_files(&self) -> Map<Seq<char>, File<H>> {
        self.files@
    }

    /// The directory below this one that is called `name`.
    pub open spec fn spec_children(&self, name: Seq<char>) -> Option<Node<H>> {
        if self.spec_childrens().contains_key(name) {
            Some(self.spec_childrens()[name])
        } else {
            None
        }
    }

    /// The file in this directory that is called `name`.
    pub open spec fn spec_file(&self, name: Seq<char>) -> Option<File<H>> {
        if self.spec_files().contains_key(name) {
            Some(self.spec_files()[name])
        } else {
            None
        }
    }

    /// The file that `parts` leads to from this directory: all parts but the
    /// last name directories, each below the one before, and the last part
    /// names a file in the last of them. No part at all leads to nothing.
    pub open spec fn spec_resolve(&self, parts: Seq<Seq<char>>) -> Option<File<H>>
        decreases parts.len(),
    {
        if parts.len() == 0 {
            None
        } else if parts.len() == 1 {
            self.spec_file(parts[0])
        } else {
            match self.spec_children(parts[0]) {
                Some(child) => child.spec_resolve(parts.skip(1)),
                None => None,
            }
        }
    }

    /// This directory is `before` with `file` put under `name` among its
    /// files, and nothing else changed.
    pub open spec fn is_with_file(&self, before: Node<H>, name: Seq<char>, file: File<H>) -> bool {
        &&& self.spec_files() == before.spec_files().insert(name, file)
        &&& self.spec_childrens() == before.spec_childrens()
        &&& self.spec_self_file() == before.spec_self_file()
    }

    /// This directory is `before` with `node` put under `name` among the
    /// directories below it, and nothing else changed.
    pub open spec fn is_with_child(&self, before: Node<H>, name: Seq<char>, node: Node<H>) -> bool {
        &&& self.spec_childrens() == before.spec_childrens().insert(name, node)
        &&& self.spec_files() == before.spec_files()
        &&& self.spec_self_file() == before.spec_self_file()
    }

    /// A directory that `file` describes and that holds nothing yet.
    pub fn new(file: File<H>) -> (node: Self)
        ensures
            node.spec_self_file() == file,
            node.spec_childrens() == Map::<Seq<char>, Node<H>>::empty(),
            node.spec_files() == Map::<Seq<char>, File<H>>::empty(),
    {
        Node { file, childrens: NodeMap::new(), files: NameMap::new() }
    }

    /// The file that describes the directory.
    pub fn get_self_file(&self) -> (file: &File<H>)
        ensures
            *file == self.spec_self_file(),
    {
        &self.file
    }

    /// The file that describes the directory, to be changed in place.
    pub fn get_file_mut(&mut self) -> (file: &mut File<H>)
        ensures
            *file == old(self).spec_self_file(),
            final(self).spec_self_file() == *final(file),
            final(self).spec_childrens() == old(self).spec_childrens(),
            final(self).spec_files() == old(self).spec_files(),
    {
        &mut self.file
    }

    /// The directories below this one.
    pub fn get_childrens(&self) -> (childrens: &NodeMap<H>)
        ensures
            childrens@ == self.spec_childrens(),
    {
        &self.childrens
    }

    /// The directories below this one, to be changed in place.
    pub fn get_childrens_mut(&mut self) -> (childrens: &mut NodeMap<H>)
        ensures
            childrens@ == old(self).spec_childrens(),
            final(self).spec_childrens() == final(childrens)@,
            final(self).spec_self_file() == old(self).spec_self_file(),
            final(self).spec_files() == old(self).spec_files(),
    {
        &mut self.childrens
    }

    /// The directory below this one that is called `name`, if there is one.
    pub fn get_children(&self, name: &str) -> (child: Option<&Node<H>>)
        ensures
            match child {
                Some(node) => self.spec_children(name@) == Some(*node),
                None => self.spec_children(name@) is None,
            },
    {
        self.childrens.get(name)
    }

    /// The files in this directory.
    pub fn get_files(&self) -> (files: &NameMap<File<H>>)
        ensures
            files@ == self.spec_files(),
    {
        &self.files
    }

    /// The files in this directory, to be changed in place.
    pub fn get_files_mut(&mut self) -> (files: &mut NameMap<File<H>>)
        ensures
            files@ == old(self).spec_files(),
            final(self).spec_files() == final(files)@,
            final(self).spec_self_file() == old(self).spec_self_file(),
            final(self).spec_childrens() == old(self).spec_childrens(),
    {
        &mut self.files
    }

    /// The file in this directory that is called `name`, if there is one.
    pub fn get_file(&self, name: &str) -> (file: Option<&File<H>>)
        ensures
            match file {
                Some(f) => self.spec_file(name@) == Some(*f),
                None => self.spec_file(name@) is None,
            },
    {
        self.files.get(name)
    }

    /// Puts `file` into the directory under `name`, in place of the file
    /// that was called so before, and hands back the file it replaces. The
    /// directories below are left as they were.
    pub fn add_file(&mut self, name: String, file: File<H>) -> (previous: Option<File<H>>)
        ensures
            previous == old(self).spec_file(name@),
            final(self).is_with_file(*old(self), name@, file),
    {
        self.files.insert(name, file)
    }

    /// Puts `node` below this directory under `name`, in place of the
    /// directory that was called so before, and hands back the directory it
    /// replaces. The files of this directory are left as they were.
    pub fn add_child(&mut self, name: String, node: Node<H>) -> (previous: Option<Node<H>>)
        ensures
            previous == old(self).spec_children(name@),
            final(self).is_with_child(*old(self), name@, node),
    {
        self.childrens.insert(name, node)
    }
}

/// The root of the tree. It holds directories only: every file lies in a
/// directory below the root.
#[verifier::reject_recursive_types(H)]
pub struct Root<H> {
    childrens: NodeMap<H>,
}

impl<H> Default for Root<H> {
    /// A root that holds nothing.
    fn default() -> (root: Self)
        ensures
            root.spec_childrens() == Map::<Seq<char>, Node<H>>::empty(),
    {
        Root { childrens: NodeMap::new() }
    }
}

impl<H> Root<H> {
    /// The directories at the root, by name.
    pub closed spec fn spec_childrens(&self) -> Map<Seq<char>, Node<H>> {
        self.childrens@
    }

    /// The directory at the root that is called `name`.
    pub open spec fn spec_children(&self, name: Seq<char>) -> Option<Node<H>> {
        if self.spec_childrens().contains_key(name) {
            Some(self.spec_childrens()[name])
        } else {
            None
        }
    }

    /// The file that `parts` leads to from the root. The first part names a
    /// directory at the root and the rest leads on from that directory, so
    /// fewer than two parts lead to nothing.
    pub open spec fn spec_resolve(&self, parts: Seq<Seq<char>>) -> Option<File<H>> {
        if parts.len() < 2 {
            None
        } else {
            match self.spec_children(parts[0]) {
                Some(child) => child.spec_resolve(parts.skip(1)),
                None => None,
            }
        }
    }

    /// The file that the path written as `path` leads to.
    pub open spec fn spec_get_file(&self, path: Seq<char>) -> Option<File<H>> {
        self.spec_resolve(segments(path))
    }

    /// This root is `before` with `node` put under `name`.
    pub open spec fn is_with_child(&self, before: Root<H>, name: Seq<char>, node: Node<H>) -> bool {
        self.spec_childrens() == before.spec_childrens().insert(name, node)
    }

    /// The directories at the root.
    pub fn get_childrens(&self) -> (childrens: &NodeMap<H>)
        ensures
            childrens@ == self.spec_childrens(),
    {
        &self.childrens
    }

    /// The directories at the root, to be changed in place.
    pub fn get_childrens_mut(&mut self) -> (childrens: &mut NodeMap<H>)
        ensures
            childrens@ == old(self).spec_childrens(),
            final(self).spec_childrens() == final(childrens)@,
    {
        &mut self.childrens
    }

    /// The directory at the root that is called `name`, if there is one.
    pub fn get_children(&self, name: &str) -> (child: Option<&Node<H>>)
        ensures
            match child {
                Some(node) => self.spec_children(name@) == Some(*node),
                None => self.spec_children(name@) is None,
            },
    {
        self.childrens.get(name)
    }

    /// The file that `path` leads to, if there is one.
    ///
    /// The segments of the path are followed from the root: all but the last
    /// through directories, the last to a file of the directory reached. A
    /// path of no segment leads to nothing, and neither does a path of one
    /// segment, which can only name a directory at the root.
    pub fn get_file(&self, path: Path) -> (file: Option<&File<H>>)
        ensures
            match file {
                Some(f) => self.spec_get_file(path@) == Some(*f),
                None => self.spec_get_file(path@) is None,
            },
    {
        let parts = path.get_parts();
        let n = parts.len();
        if n < 2 {
            return None;
        }
        let ghost names = parts.deep_view();
        let mut node = match self.childrens.get(parts[0].as_str()) {
            Some(child) => child,
            None => {
                return None;
            },
        };
        let mut i: usize = 1;
        while i < n - 1
            invariant
                1 <= i <= n - 1,
                n == parts.len(),
                names == parts.deep_view(),
                self.spec_get_file(path@) == node.spec_resolve(names.skip(i as int)),
            decreases n - i,
        {
            assert(names.skip(i as int).skip(1) == names.skip(i + 1));
            match node.childrens.get(parts[i].as_str()) {
                Some(child) => {
                    node = child;
                },
                None => {
                    return None;
                },
            }
            i = i + 1;
        }
        node.files.get(parts[n - 1].as_str())
    }

    /// Puts `node` at the root under `name`, in place of the directory that
    /// was called so before, and hands back the directory it replaces.
    pub fn add_child(&mut self, name: String, node: Node<H>) -> (previous: Option<Node<H>>)
        ensures
            previous == old(self).spec_children(name@),
            final(self).is_with_child(*old(self), name@, node),
    {
        self.childrens.insert(name, node)
    }
}

/// Putting a file under a name replaces: where `name` is free in `start`,
/// putting `first` under it finds nothing there, putting `second` under it
/// afterwards finds `first`, and the name then leads to `second`.
pub proof fn lemma_add_file_replaces<H>(
    start: Node<H>,
    once: Node<H>,
    twice: Node<H>,
    name: Seq<char>,
    first: File<H>,
    second: File<H>,
)
    requires
        !start.spec_files().contains_key(name),
        once.is_with_file(start, name, first),
        twice.is_with_file(once, name, second),
    ensures
        start.spec_file(name) is None,
        once.spec_file(name) == Some(first),
        twice.spec_file(name) == Some(second),
{
}

/// The same holds of the directories below a directory.
pub proof fn lemma_add_child_replaces<H>(
    start: Node<H>,
    once: Node<H>,
    twice: Node<H>,
    name: Seq<char>,
    first: Node<H>,
    second: Node<H>,
)
    requires
        !start.spec_childrens().contains_key(name),
        once.is_with_child(start, name, first),
        twice.is_with_child(once, name, second),
    ensures
        start.spec_children(name) is None,
        once.spec_children(name) == Some(first),
        twice.spec_children(name) == Some(second),
{
}

/// Files and directories are named apart: a file and a directory that are
/// put into one directory under one name are both found under it.
pub proof fn lemma_names_apart<H>(
    start: Node<H>,
    with_file: Node<H>,
    with_both: Node<H>,
    name: Seq<char>,
    file: File<H>,
    node: Node<H>,
)
    requires
        with_file.is_with_file(start, name, file),
        with_both.is_with_child(with_file, name, node),
    ensures
        with_both.spec_file(name) == Some(file),
        with_both.spec_children(name) == Some(node),
        with_file.spec_children(name) == start.spec_children(name),
{
}

/// A path of fewer than two segments leads to no file, whatever the tree
/// holds: no segment names nothing, and one segment can only name a
/// directory at the root.
pub proof fn lemma_short_path_leads_nowhere<H>(root: Root<H>, path: Seq<char>)
    requires
        segments(path).len() < 2,
    ensures
        root.spec_get_file(path) is None,
{
}

/// A path that is empty or made of separators only leads to no file.
pub proof fn lemma_separators_lead_nowhere<H>(root: Root<H>, path: Seq<char>)
    requires
        forall|i: int| 0 <= i < path.len() ==> path[i] == SEPARATOR,
    ensures
        root.spec_get_file(path) is None,
{
    lemma_segments_of_separators(path);
}

/// A path of one segment, with any separators around it, leads to no file,
/// also where the segment names a directory at the root.
pub proof fn lemma_one_segment_leads_nowhere<H>(
    root: Root<H>,
    before: Seq<char>,
    name: Seq<char>,
    after: Seq<char>,
)
    requires
        is_segment(name),
        forall|i: int| 0 <= i < before.len() ==> before[i] == SEPARATOR,
        forall|i: int| 0 <= i < after.len() ==> after[i] == SEPARATOR,
    ensures
        segments(before + name + after) == seq![name],
        root.spec_get_file(before + name + after) is None,
{
    lemma_segments_between_separators(before, name, after);
    lemma_segments_of_segment(name);
}

/// A path of two segments leads to the file that the second segment names
/// in the directory that the first names at the root.
pub proof fn lemma_file_in_directory<H>(root: Root<H>, directory: Seq<char>, file: Seq<char>)
    requires
        is_segment(directory),
        is_segment(file),
    ensures
        root.spec_get_file(seq![SEPARATOR] + directory + seq![SEPARATOR] + file)
            == match root.spec_children(directory) {
            Some(node) => node.spec_file(file),
            None => None,
        },
{
    let path = seq![SEPARATOR] + directory + seq![SEPARATOR] + file;
    lemma_segments_around_separator(seq![SEPARATOR] + directory, file);
    lemma_segments_around_separator(Seq::empty(), directory);
    assert(Seq::<char>::empty() + seq![SEPARATOR] + directory == seq![SEPARATOR] + directory);
    lemma_segments_of_segment(directory);
    lemma_segments_of_segment(file);
    assert(segments(Seq::<char>::empty()) == Seq::<Seq<char>>::empty());
    assert(segments(path) == seq![directory, file]);
    assert(segments(path).skip(1) == seq![file]);
}

/// What a path leads to depends on its segments alone: two paths that are
/// written differently and have the same segments lead to the same file.
pub proof fn lemma_spelling_is_ignored<H>(root: Root<H>, path: Seq<char>, other: Seq<char>)
    requires
        segments(path) == segments(other),
    ensures
        root.spec_get_file(path) == root.spec_get_file(other),
{
}

/// A file under a name that is no segment (the empty name, or a name that
/// holds a separator) is out of the reach of paths: putting a file under
/// such a name changes what no sequence of segments leads to.
pub proof fn lemma_file_out_of_reach<H>(
    before: Node<H>,
    after: Node<H>,
    name: Seq<char>,
    file: File<H>,
    parts: Seq<Seq<char>>,
)
    requires
        !is_segment(name),
        after.is_with_file(before, name, file),
        forall|i: int| 0 <= i < parts.len() ==> is_segment(#[trigger] parts[i]),
    ensures
        after.spec_resolve(parts) == before.spec_resolve(parts),
{
}

/// A directory at the root under a name that is no segment is out of the
/// reach of paths: putting a directory under such a name changes what no
/// path leads to.
pub proof fn lemma_directory_out_of_reach<H>(
    before: Root<H>,
    after: Root<H>,
    name: Seq<char>,
    node: Node<H>,
    path: Seq<char>,
)
    requires
        !is_segment(name),
        after.is_with_child(before, name, node),
    ensures
        after.spec_get_file(path) == before.spec_get_file(path),
{
    lemma_segments_are_segments(path);
    let parts = segments(path);
    if parts.len() >= 2 {
        assert(is_segment(parts[0]));
    }
}

} // verus!
