//! The path logic of the virtual file system: path segment specs, the
//! variables that a path binds, node permissions, and path normalization.

use crate::text::str_equal;
use vstd::prelude::*;

verus! {

broadcast use vstd::std_specs::vec::group_vec_axioms;

/// Whether a node is a file or a directory.
#[derive(Copy, Clone, Debug, PartialEq, Eq, Structural)]
pub enum NodeType {
    File,
    Directory,
}

/// What a user may do with a node.
#[derive(Copy, Clone, Debug, PartialEq, Eq, Structural)]
pub struct NodePermissions {
    pub read: bool,
    pub write: bool,
    pub execute: bool,
}

impl NodePermissions {
    /// Read-only.
    pub fn read_only() -> (p: NodePermissions)
        ensures
            p == (NodePermissions { read: true, write: false, execute: false }),
    {
        NodePermissions { read: true, write: false, execute: false }
    }

    /// Readable and writable.
    pub fn read_write() -> (p: NodePermissions)
        ensures
            p == (NodePermissions { read: true, write: true, execute: false }),
    {
        NodePermissions { read: true, write: true, execute: false }
    }

    /// Readable and executable: a directory that can be listed and entered.
    pub fn read_execute() -> (p: NodePermissions)
        ensures
            p == (NodePermissions { read: true, write: false, execute: true }),
    {
        NodePermissions { read: true, write: false, execute: true }
    }
}

/// A definition for a path segment in the virtual tree, associated with one
/// virtual node.
#[derive(Copy, Clone, Debug, PartialEq, Eq)]
pub enum SegmentSpec {
    /// The node is referenced by a particular static string; it corresponds
    /// to at most one physical node.
    Fixed(&'static str),
    /// The node can be referenced by any path segment; the string is the name
    /// of the variable under which the segment is stored.
    Variable(&'static str),
}

/// Does the path segment match the spec: exactly the string of a fixed spec,
/// and anything for a variable spec?
pub open spec fn segment_matches(spec: SegmentSpec, segment: Seq<char>) -> bool {
    match spec {
        SegmentSpec::Fixed(expected) => expected@ == segment,
        SegmentSpec::Variable(_) => true,
    }
}

impl SegmentSpec {
    /// Checks if the given path segment matches this spec. Fixed segment
    /// specs require an exact string match, while variable specs match any
    /// segment.
    pub fn matches(&self, path_segment: &str) -> (r: bool)
        ensures
            r == segment_matches(*self, path_segment@),
    {
        match self {
            SegmentSpec::Fixed(expected_segment) => str_equal(expected_segment, path_segment),
            SegmentSpec::Variable(_) => true,
        }
    }
}

/// A mapping of the variable parts of a path: each variable path segment's
/// name, bound to its value in a particular path. The last segment of a
/// path, the one being operated on, gets no variable.
#[derive(Debug)]
pub struct PathVariables {
    entries: Vec<(String, String)>,
}

/// The names of the entries are pairwise different.
pub open spec fn names_unique(entries: Seq<(String, String)>) -> bool {
    forall|i: int, j: int|
        0 <= i < entries.len() && 0 <= j < entries.len() && i != j ==> entries[i].0@ != entries[j].0@
}

/// Is `name` the name of an entry?
pub open spec fn has_name(entries: Seq<(String, String)>, name: Seq<char>) -> bool {
    exists|i: int| 0 <= i < entries.len() && #[trigger] entries[i].0@ == name
}

/// The map from each entry's name to its value.
pub open spec fn entries_map(entries: Seq<(String, String)>) -> Map<Seq<char>, Seq<char>> {
    Map::new(
        |name: Seq<char>| has_name(entries, name),
        |name: Seq<char>|
            entries[choose|i: int| 0 <= i < entries.len() && #[trigger] entries[i].0@ == name].1@,
    )
}

/// With unique names, the entry at `i` gives the value of its name.
proof fn lemma_entry_value(entries: Seq<(String, String)>, i: int)
    requires
        names_unique(entries),
        0 <= i < entries.len(),
    ensures
        entries_map(entries).contains_key(entries[i].0@),
        entries_map(entries)[entries[i].0@] == entries[i].1@,
{
    let name = entries[i].0@;
    assert(has_name(entries, name));
    let j = choose|j: int| 0 <= j < entries.len() && #[trigger] entries[j].0@ == name;
    assert(j == i);
}

impl View for PathVariables {
    type V = Map<Seq<char>, Seq<char>>;

    closed spec fn view(&self) -> Map<Seq<char>, Seq<char>> {
        entries_map(self.entries@)
    }
}

impl PathVariables {
    #[verifier::type_invariant]
    spec fn wf(self) -> bool {
        names_unique(self.entries@)
    }

    /// An empty mapping.
    pub fn new() -> (vars: Self)
        ensures
            vars@ == Map::<Seq<char>, Seq<char>>::empty(),
    {
        let vars = PathVariables { entries: Vec::new() };
        assert(vars@ =~= Map::<Seq<char>, Seq<char>>::empty());
        vars
    }

    /// A copy of the mapping.
    pub fn duplicate(&self) -> (c: Self)
        ensures
            c@ == self@,
    {
        proof {
            use_type_invariant(self);
        }
        let mut entries: Vec<(String, String)> = Vec::new();
        let mut i: usize = 0;
        while i < self.entries.len()
            invariant
                i <= self.entries@.len(),
                entries@ == self.entries@.subrange(0, i as int),
            decreases self.entries@.len() - i,
        {
            let name = self.entries[i].0.clone();
            let value = self.entries[i].1.clone();
            entries.push((name, value));
            i = i + 1;
            assert(entries@ =~= self.entries@.subrange(0, i as int));
        }
        assert(self.entries@.subrange(0, self.entries@.len() as int) =~= self.entries@);
        PathVariables { entries }
    }

    /// The index of the entry with the given name, if any.
    fn position(&self, name: &str) -> (r: Option<usize>)
        ensures
            match r {
                Some(i) => i < self.entries@.len() && self.entries@[i as int].0@ == name@,
                None => !has_name(self.entries@, name@),
            },
    {
        let mut i: usize = 0;
        while i < self.entries.len()
            invariant
                i <= self.entries@.len(),
                forall|j: int| 0 <= j < i ==> self.entries@[j].0@ != name@,
            decreases self.entries@.len() - i,
        {
            if str_equal(self.entries[i].0.as_str(), name) {
                return Some(i);
            }
            i = i + 1;
        }
        None
    }

    /// The value of a path variable. All variable names are fixed by the
    /// tree, and a path only matches when all its variables are present, so
    /// a missing variable is a bug; it is left out by `requires`.
    pub fn get_var(&self, var_name: &'static str) -> (value: &str)
        requires
            self@.contains_key(var_name@),
        ensures
            value@ == self@[var_name@],
    {
        proof {
            use_type_invariant(self);
        }
        match self.position(var_name) {
            Some(i) => {
                proof {
                    lemma_entry_value(self.entries@, i as int);
                }
                self.entries[i].1.as_str()
            },
            None => {
                proof {
                    assert(false);
                }
                ""
            },
        }
    }

    /// Stores the value under the variable's name if the segment is
    /// variable; does nothing for a fixed segment.
    pub fn insert_if_var(&mut self, path_segment: SegmentSpec, value: &str)
        ensures
            final(self)@ == match path_segment {
                SegmentSpec::Variable(name) => old(self)@.insert(name@, value@),
                SegmentSpec::Fixed(_) => old(self)@,
            },
    {
        if let SegmentSpec::Variable(var_name) = path_segment {
            proof {
                use_type_invariant(&*self);
            }
            let ghost before = self.entries@;
            let entry = (var_name.to_string(), value.to_string());
            match self.position(var_name) {
                Some(i) => {
                    let mut entries: Vec<(String, String)> = Vec::new();
                    std::mem::swap(&mut entries, &mut self.entries);
                    entries.set(i, entry);
                    proof {
                        lemma_replace_entry(before, i as int, entries@[i as int]);
                    }
                    self.entries = entries;
                },
                None => {
                    let mut entries: Vec<(String, String)> = Vec::new();
                    std::mem::swap(&mut entries, &mut self.entries);
                    entries.push(entry);
                    proof {
                        lemma_push_entry(before, entries@.last());
                    }
                    self.entries = entries;
                },
            }
        }
    }
}

/// Replacing the entry at `i` by one with the same name keeps the names
/// unique and rebinds that name.
proof fn lemma_replace_entry(entries: Seq<(String, String)>, i: int, e: (String, String))
    requires
        names_unique(entries),
        0 <= i < entries.len(),
        e.0@ == entries[i].0@,
    ensures
        names_unique(entries.update(i, e)),
        entries_map(entries.update(i, e)) == entries_map(entries).insert(e.0@, e.1@),
{
    let after = entries.update(i, e);
    assert(names_unique(after));
    let m = entries_map(after);
    let expect = entries_map(entries).insert(e.0@, e.1@);
    assert forall|name: Seq<char>| m.contains_key(name) <==> expect.contains_key(name) by {
        if has_name(after, name) {
            let j = choose|j: int| 0 <= j < after.len() && #[trigger] after[j].0@ == name;
            if j != i {
                assert(entries[j].0@ == name);
            }
        }
        if has_name(entries, name) {
            let j = choose|j: int| 0 <= j < entries.len() && #[trigger] entries[j].0@ == name;
            if j != i {
                assert(after[j].0@ == name);
            } else {
                assert(after[i].0@ == name);
            }
        }
        if name == e.0@ {
            assert(after[i].0@ == name);
        }
    }
    assert forall|name: Seq<char>| m.contains_key(name) implies m[name] == expect[name] by {
        let j = choose|j: int| 0 <= j < after.len() && #[trigger] after[j].0@ == name;
        lemma_entry_value(after, j);
        if j != i {
            assert(entries[j] == after[j]);
            lemma_entry_value(entries, j);
        }
    }
    assert(m =~= expect);
}

/// Pushing an entry with a new name keeps the names unique and binds that
/// name.
proof fn lemma_push_entry(entries: Seq<(String, String)>, e: (String, String))
    requires
        names_unique(entries),
        !has_name(entries, e.0@),
    ensures
        names_unique(entries.push(e)),
        entries_map(entries.push(e)) == entries_map(entries).insert(e.0@, e.1@),
{
    let after = entries.push(e);
    let n = entries.len() as int;
    assert forall|i: int, j: int|
        0 <= i < after.len() && 0 <= j < after.len() && i != j implies after[i].0@
        != after[j].0@ by {
        if i == n {
            assert(after[j] == entries[j]);
        } else if j == n {
            assert(after[i] == entries[i]);
        }
    }
    let m = entries_map(after);
    let expect = entries_map(entries).insert(e.0@, e.1@);
    assert forall|name: Seq<char>| m.contains_key(name) <==> expect.contains_key(name) by {
        if has_name(after, name) {
            let j = choose|j: int| 0 <= j < after.len() && #[trigger] after[j].0@ == name;
            if j != n {
                assert(entries[j].0@ == name);
            }
        }
        if has_name(entries, name) {
            let j = choose|j: int| 0 <= j < entries.len() && #[trigger] entries[j].0@ == name;
            assert(after[j].0@ == name);
        }
        if name == e.0@ {
            assert(after[n].0@ == name);
        }
    }
    assert forall|name: Seq<char>| m.contains_key(name) implies m[name] == expect[name] by {
        let j = choose|j: int| 0 <= j < after.len() && #[trigger] after[j].0@ == name;
        lemma_entry_value(after, j);
        if j != n {
            assert(entries[j] == after[j]);
            lemma_entry_value(entries, j);
        }
    }
    assert(m =~= expect);
}


/// The pieces of `text` between the matches of the regex `/+`, as
/// `Regex::split` yields them: each maximal run of slashes separates two
/// pieces, so a leading or trailing run gives an empty piece.
pub open spec fn slash_split(text: Seq<char>) -> Seq<Seq<char>>
    decreases text.len(),
{
    if text.len() == 0 {
        seq![Seq::empty()]
    } else {
        let before = slash_split(text.drop_last());
        let c = text.last();
        if c != '/' {
            before.drop_last().push(before.last().push(c))
        } else if text.len() >= 2 && text[text.len() - 2] == '/' {
            before
        } else {
            before.push(Seq::empty())
        }
    }
}

proof fn lemma_slash_split_nonempty(text: Seq<char>)
    ensures
        slash_split(text).len() >= 1,
    decreases text.len(),
{
    if text.len() > 0 {
        lemma_slash_split_nonempty(text.drop_last());
    }
}

/// The facts that each step of `slash_split` keeps: no piece holds a
/// slash, no piece strictly inside is empty, and the last piece is empty
/// exactly when the text ends with a slash.
pub open spec fn split_shape(text: Seq<char>, pieces: Seq<Seq<char>>) -> bool {
    &&& pieces.len() >= 1
    &&& forall|i: int, j: int| 0 <= i < pieces.len() && 0 <= j < pieces[i].len() ==> #[trigger] pieces[i][j] != '/'
    &&& forall|i: int| 0 < i < pieces.len() - 1 ==> #[trigger] pieces[i].len() > 0
    &&& text.len() > 0 ==> (pieces.last().len() == 0 <==> text.last() == '/')
}

proof fn lemma_slash_split_shape(text: Seq<char>)
    ensures
        split_shape(text, slash_split(text)),
    decreases text.len(),
{
    if text.len() > 0 {
        let prev = text.drop_last();
        lemma_slash_split_shape(prev);
        let before = slash_split(prev);
        let c = text.last();
        let after = slash_split(text);
        if c != '/' {
            let last = before.last().push(c);
            assert(after == before.drop_last().push(last));
            assert forall|i: int, j: int| 0 <= i < after.len() && 0 <= j < after[i].len() implies #[trigger] after[i][j] != '/' by {
                if i < after.len() - 1 {
                    assert(after[i] == before[i]);
                } else {
                    assert(after[i] == last);
                    if j < before.last().len() {
                        assert(last[j] == before.last()[j]);
                        assert(before[before.len() - 1][j] != '/');
                    }
                }
            }
            assert forall|i: int| 0 < i < after.len() - 1 implies #[trigger] after[i].len() > 0 by {
                assert(after[i] == before[i]);
            }
        } else if text.len() >= 2 && text[text.len() - 2] == '/' {
            assert(after == before);
            assert(prev.last() == '/');
        } else {
            assert(after == before.push(Seq::empty()));
            assert forall|i: int, j: int| 0 <= i < after.len() && 0 <= j < after[i].len() implies #[trigger] after[i][j] != '/' by {
                assert(after[i] == before[i]);
            }
            assert forall|i: int| 0 < i < after.len() - 1 implies #[trigger] after[i].len() > 0 by {
                assert(after[i] == before[i]);
                if i == before.len() - 1 {
                    assert(prev.len() > 0);
                    assert(prev.last() != '/');
                }
            }
        }
    }
}

/// Builds the regex `/+` with `Regex::new` (a valid pattern, so the build
/// never fails), calls `Regex::split` with it on the path and collects the
/// pieces. Claims: the pieces are those of `slash_split`, in order, as the
/// regex crate documents splitting: the parts of the haystack between
/// matches, with an empty part before a leading and after a trailing match.
#[verifier::external_body]
fn split_slash_runs<'a>(path: &'a str) -> (pieces: Vec<&'a str>)
    ensures
        pieces@.map_values(|s: &str| s@) == slash_split(path@),
{
    let separator = regex::Regex::new("/+").unwrap();
    separator.split(path).collect()
}

/// The segments of a normalized path: the empty path is the root alone;
/// otherwise the pieces between runs of slashes, without the empty piece
/// that a trailing slash leaves (the root `/` stays one empty segment).
pub open spec fn path_segments(path: Seq<char>) -> Seq<Seq<char>> {
    if path.len() == 0 {
        seq![Seq::empty()]
    } else {
        let pieces = slash_split(path);
        if pieces.len() > 1 && pieces.last().len() == 0 {
            pieces.drop_last()
        } else {
            pieces
        }
    }
}

/// Normalizes the given path, then splits it into segments. Normalization
/// de-duplicates slashes and removes trailing slashes:
/// `""` and `"/"` both give `[""]`, `"/dir1"` gives `["", "dir1"]`, and
/// `"/dir1//dir2/"` gives `["", "dir1", "dir2"]`.
pub fn resolve_path<'a>(path: &'a str) -> (segments: Vec<&'a str>)
    ensures
        segments@.map_values(|s: &str| s@) == path_segments(path@),
        segments@.len() >= 1,
{
    if path.is_empty() {
        let mut root: Vec<&'a str> = Vec::new();
        // The path is empty, so it is itself the root segment.
        root.push(path);
        assert(root@[0] == path);
        assert(path@ =~= Seq::<char>::empty());
        assert(root@.map_values(|s: &str| s@)[0] == path@);
        assert(root@.map_values(|s: &str| s@) =~= seq![Seq::<char>::empty()]);
        return root;
    }
    let mut pieces = split_slash_runs(path);
    proof {
        lemma_slash_split_nonempty(path@);
    }
    let n = pieces.len();
    assert(pieces@.map_values(|s: &str| s@).len() == n);
    if n > 1 && pieces[n - 1].is_empty() {
        let ghost all = pieces@;
        pieces.pop();
        assert(pieces@.map_values(|s: &str| s@) =~= all.map_values(|s: &str| s@).drop_last());
    }
    pieces
}


/// Which handler serves the physical nodes of a virtual node. The handlers
/// read the database, so only their names stand here.
#[derive(Copy, Clone, Debug, PartialEq, Eq, Structural)]
pub enum NodeHandler {
    /// A plain directory, readable and executable.
    SimpleDir,
    /// The directory of one hardware spec.
    HardwareSpec,
    /// The description file of a hardware spec.
    HardwareSpecFile,
    /// The directory of one program spec.
    ProgramSpec,
    /// The description file of a program spec.
    ProgramSpecFile,
    /// The user's source file for a program spec.
    ProgramSource,
}

/// A virtual node in the file system: it serves any number of physical nodes
/// at the paths that its segment spec matches.
#[derive(Debug)]
pub struct VirtualNode {
    pub path_segment: SegmentSpec,
    pub node_type: NodeType,
    pub handler: NodeHandler,
    pub children: Vec<VirtualNode>,
}

/// The index of the first node whose segment spec matches the segment.
pub open spec fn first_matching(nodes: Seq<VirtualNode>, segment: Seq<char>) -> Option<int>
    decreases nodes.len(),
{
    if nodes.len() == 0 {
        None
    } else if segment_matches(nodes[0].path_segment, segment) {
        Some(0)
    } else {
        match first_matching(nodes.drop_first(), segment) {
            Some(i) => Some(i + 1),
            None => None,
        }
    }
}

proof fn lemma_first_matching(nodes: Seq<VirtualNode>, segment: Seq<char>)
    ensures
        match first_matching(nodes, segment) {
            Some(i) => 0 <= i < nodes.len() && segment_matches(nodes[i].path_segment, segment)
                && forall|j: int| 0 <= j < i ==> !segment_matches(#[trigger] nodes[j].path_segment, segment),
            None => forall|j: int| 0 <= j < nodes.len() ==> !segment_matches(#[trigger] nodes[j].path_segment, segment),
        },
    decreases nodes.len(),
{
    if nodes.len() > 0 && !segment_matches(nodes[0].path_segment, segment) {
        lemma_first_matching(nodes.drop_first(), segment);
        let rest = nodes.drop_first();
        match first_matching(rest, segment) {
            Some(i) => {
                assert forall|j: int| 0 <= j < i + 1 implies !segment_matches(#[trigger] nodes[j].path_segment, segment) by {
                    if j > 0 {
                        assert(nodes[j] == rest[j - 1]);
                    }
                }
            },
            None => {
                assert forall|j: int| 0 <= j < nodes.len() implies !segment_matches(#[trigger] nodes[j].path_segment, segment) by {
                    if j > 0 {
                        assert(nodes[j] == rest[j - 1]);
                    }
                }
            },
        }
    }
}

/// The child indexes that the segments after the first lead to below the
/// node: each next segment goes to the first child of the current node that
/// matches it; the chain stops where no child matches.
pub open spec fn child_chain(node: VirtualNode, segments: Seq<Seq<char>>) -> Seq<int>
    decreases segments.len(),
{
    if segments.len() <= 1 {
        Seq::empty()
    } else {
        match first_matching(node.children@, segments[1]) {
            None => Seq::empty(),
            Some(c) => seq![c] + child_chain(node.children@[c], segments.drop_first()),
        }
    }
}

/// Where a path leads in the virtual tree: whether the root matches the
/// first segment, and the child indexes that the following segments lead
/// to. The path names a virtual node when the root matches and the chain
/// covers every further segment.
#[derive(Clone, Debug, PartialEq)]
pub struct WalkPlan {
    pub root_matches: bool,
    pub child_path: Vec<usize>,
}

impl VirtualNode {
    /// A virtual node for files.
    pub fn file(path_segment: SegmentSpec, handler: NodeHandler) -> (n: Self)
        ensures
            n.path_segment == path_segment,
            n.node_type == NodeType::File,
            n.handler == handler,
            n.children@.len() == 0,
    {
        VirtualNode { path_segment, node_type: NodeType::File, handler, children: Vec::new() }
    }

    /// A virtual node for directories.
    pub fn dir(path_segment: SegmentSpec, handler: NodeHandler, children: Vec<VirtualNode>) -> (n: Self)
        ensures
            n.path_segment == path_segment,
            n.node_type == NodeType::Directory,
            n.handler == handler,
            n.children == children,
    {
        VirtualNode { path_segment, node_type: NodeType::Directory, handler, children }
    }

    /// The index of the first child whose segment spec matches the path
    /// segment.
    pub fn find_child(&self, path_segment: &str) -> (r: Option<usize>)
        ensures
            match r {
                Some(c) => c < self.children@.len() && first_matching(self.children@, path_segment@) == Some(
                    c as int,
                ),
                None => first_matching(self.children@, path_segment@) is None,
            },
    {
        proof {
            lemma_first_matching(self.children@, path_segment@);
        }
        let mut i: usize = 0;
        while i < self.children.len()
            invariant
                i <= self.children@.len(),
                forall|j: int| 0 <= j < i ==> !segment_matches(#[trigger] self.children@[j].path_segment, path_segment@),
                match first_matching(self.children@, path_segment@) {
                    Some(k) => 0 <= k < self.children@.len() && segment_matches(self.children@[k].path_segment, path_segment@)
                        && forall|j: int| 0 <= j < k ==> !segment_matches(#[trigger] self.children@[j].path_segment, path_segment@),
                    None => forall|j: int| 0 <= j < self.children@.len() ==> !segment_matches(#[trigger] self.children@[j].path_segment, path_segment@),
                },
            decreases self.children@.len() - i,
        {
            if self.children[i].path_segment.matches(path_segment) {
                return Some(i);
            }
            i = i + 1;
        }
        None
    }

    /// Follows the path segments down the tree from this node, as far as
    /// they match, without asking whether the physical nodes exist.
    pub fn walk(&self, segments: &[&str]) -> (plan: WalkPlan)
        ensures
            plan.root_matches == (segments@.len() > 0 && segment_matches(self.path_segment, segments@[0]@)),
            plan.child_path@.map_values(|c: usize| c as int) == if plan.root_matches {
                child_chain(*self, segments@.map_values(|s: &str| s@))
            } else {
                Seq::empty()
            },
    {
        let ghost segs = segments@.map_values(|s: &str| s@);
        let mut child_path: Vec<usize> = Vec::new();
        if segments.len() == 0 || !self.path_segment.matches(segments[0]) {
            assert(child_path@.map_values(|c: usize| c as int) =~= Seq::<int>::empty());
            return WalkPlan { root_matches: false, child_path };
        }
        let mut node: &VirtualNode = self;
        let mut i: usize = 1;
        proof {
            assert(segs.subrange(0, segs.len() as int) =~= segs);
            assert(child_path@.map_values(|c: usize| c as int) =~= Seq::<int>::empty());
            assert(Seq::<int>::empty() + child_chain(*self, segs) =~= child_chain(*self, segs));
            if segments@.len() <= 1 {
                assert(child_chain(*self, segs) =~= Seq::<int>::empty());
            }
        }
        while i < segments.len()
            invariant_except_break
                1 <= i <= segments@.len(),
                segs == segments@.map_values(|s: &str| s@),
                child_chain(*self, segs) == child_path@.map_values(|c: usize| c as int)
                    + child_chain(*node, segs.subrange(i - 1, segs.len() as int)),
                i >= segments@.len() ==> child_chain(*self, segs) == child_path@.map_values(|c: usize| c as int),
            ensures
                child_chain(*self, segs) == child_path@.map_values(|c: usize| c as int),
            decreases segments@.len() - i,
        {
            let ghost rest = segs.subrange(i - 1, segs.len() as int);
            assert(rest[1] == segments@[i as int]@);
            proof {
                lemma_first_matching(node.children@, segments@[i as int]@);
            }
            match node.find_child(segments[i]) {
                None => {
                    assert(child_chain(*node, rest) =~= Seq::<int>::empty());
                    assert(child_path@.map_values(|c: usize| c as int) + Seq::<int>::empty() =~= child_path@.map_values(|c: usize| c as int));
                    break;
                },
                Some(c) => {
                    let ghost before = child_path@.map_values(|c: usize| c as int);
                    let ghost child = node.children@[c as int];
                    assert(rest.drop_first() =~= segs.subrange(i as int, segs.len() as int));
                    assert(segs.len() == segments@.len());
                    assert(rest.len() >= 2);
                    assert(first_matching(node.children@, rest[1]) == Some(c as int));
                    assert(child_chain(*node, rest) == seq![c as int] + child_chain(child, rest.drop_first()));
                    child_path.push(c);
                    assert(child_path@.map_values(|c: usize| c as int) =~= before.push(c as int));
                    assert(before + (seq![c as int] + child_chain(child, rest.drop_first())) =~= before.push(c as int) + child_chain(child, rest.drop_first()));
                    node = &node.children[c];
                    proof {
                        if i + 1 >= segments@.len() {
                            let next = segs.subrange(i as int, segs.len() as int);
                            assert(next.len() <= 1);
                            assert(child_chain(child, next) =~= Seq::<int>::empty());
                            assert(child_path@.map_values(|c: usize| c as int) + Seq::<int>::empty() =~= child_path@.map_values(|c: usize| c as int));
                        }
                    }
                },
            }
            i = i + 1;
        }
        WalkPlan { root_matches: true, child_path }
    }
}

/// Law: a resolved path is normalized: it has at least one segment, no
/// segment holds a slash, and no segment after the first is empty (slashes
/// are de-duplicated and trailing slashes dropped).
pub proof fn lemma_path_segments_normalized(path: Seq<char>)
    ensures
        path_segments(path).len() >= 1,
        forall|i: int, j: int|
            0 <= i < path_segments(path).len() && 0 <= j < path_segments(path)[i].len() ==> #[trigger] path_segments(path)[i][j] != '/',
        forall|i: int| 0 < i < path_segments(path).len() ==> #[trigger] path_segments(path)[i].len() > 0,
{
    let segs = path_segments(path);
    if path.len() == 0 {
        assert(segs == seq![Seq::<char>::empty()]);
    } else {
        lemma_slash_split_shape(path);
        let pieces = slash_split(path);
        if pieces.len() > 1 && pieces.last().len() == 0 {
            assert(segs == pieces.drop_last());
            assert forall|i: int, j: int| 0 <= i < segs.len() && 0 <= j < segs[i].len() implies #[trigger] segs[i][j] != '/' by {
                assert(segs[i] == pieces[i]);
            }
            assert forall|i: int| 0 < i < segs.len() implies #[trigger] segs[i].len() > 0 by {
                assert(segs[i] == pieces[i]);
            }
        } else {
            assert(segs == pieces);
            assert forall|i: int| 0 < i < segs.len() implies #[trigger] segs[i].len() > 0 by {
                if i == segs.len() - 1 {
                    assert(pieces.last() == pieces[i]);
                }
            }
        }
    }
}

} // verus!
