//! The nodes of the virtual file system: the layout of the virtual tree, what
//! each kind of node permits and shows, the lookup of the node at a path and
//! the listing of a directory's children. Whether a physical node exists,
//! and which physical nodes a variable node has, are answers of the
//! database: the caller asks them and hands the answers in.

use crate::text::{decimal, push_decimal};
use crate::vfs::{
    first_matching, resolve_path, path_segments, segment_matches, NodeHandler, NodePermissions, NodeType,
    PathVariables, SegmentSpec, VirtualNode,
};
use vstd::prelude::*;
use vstd::string::StringExecFns;

verus! {

broadcast use vstd::std_specs::vec::group_vec_axioms;

/// What each kind of node permits: directories can be listed and entered,
/// spec files can be read, and the user's source file can be read and
/// written.
pub open spec fn handler_permissions(h: NodeHandler) -> NodePermissions {
    match h {
        NodeHandler::SimpleDir | NodeHandler::HardwareSpec | NodeHandler::ProgramSpec => NodePermissions {
            read: true,
            write: false,
            execute: true,
        },
        NodeHandler::HardwareSpecFile | NodeHandler::ProgramSpecFile => NodePermissions {
            read: true,
            write: false,
            execute: false,
        },
        NodeHandler::ProgramSource => NodePermissions { read: true, write: true, execute: false },
    }
}

impl NodeHandler {
    /// The permissions of the nodes that this handler serves.
    pub fn permissions(&self) -> (p: NodePermissions)
        ensures
            p == handler_permissions(*self),
    {
        match self {
            NodeHandler::SimpleDir | NodeHandler::HardwareSpec | NodeHandler::ProgramSpec => {
                NodePermissions::read_execute()
            },
            NodeHandler::HardwareSpecFile | NodeHandler::ProgramSpecFile => NodePermissions::read_only(),
            NodeHandler::ProgramSource => NodePermissions::read_write(),
        }
    }
}

/// The decimal text of an integer, with a minus sign when it is negative.
pub open spec fn int_text(i: int) -> Seq<char> {
    if i < 0 {
        "-"@ + decimal((-i) as nat)
    } else {
        decimal(i as nat)
    }
}

/// Appends the decimal text of an `i32`.
fn push_i32(out: &mut String, v: i32)
    ensures
        final(out)@ == old(out)@ + int_text(v as int),
{
    if v < 0 {
        out.append("-");
        let magnitude: u64 = (0i64 - v as i64) as u64;
        push_decimal(out, magnitude);
        assert(final(out)@ =~= old(out)@ + int_text(v as int));
    } else {
        push_decimal(out, v as u64);
    }
}

/// The content of a hardware spec's `spec.txt`.
pub open spec fn hardware_spec_text(num_registers: i32, num_stacks: i32, max_stack_length: i32) -> Seq<char> {
    "Registers: "@ + int_text(num_registers as int) + "\nStacks: "@ + int_text(num_stacks as int)
        + "\nMax stack length: "@ + int_text(max_stack_length as int) + "\n"@
}

/// The content of a hardware spec's `spec.txt`: its register count, stack
/// count and maximum stack length, one per line.
pub fn hardware_spec_file_content(num_registers: i32, num_stacks: i32, max_stack_length: i32) -> (text: String)
    ensures
        text@ == hardware_spec_text(num_registers, num_stacks, max_stack_length),
{
    let mut text = String::from_str("Registers: ");
    push_i32(&mut text, num_registers);
    text.append("\nStacks: ");
    push_i32(&mut text, num_stacks);
    text.append("\nMax stack length: ");
    push_i32(&mut text, max_stack_length);
    text.append("\n");
    text
}

/// The values of a list, separated by a comma and a space.
pub open spec fn values_text(values: Seq<i32>) -> Seq<char>
    decreases values.len(),
{
    if values.len() == 0 {
        Seq::empty()
    } else if values.len() == 1 {
        int_text(values[0] as int)
    } else {
        values_text(values.drop_last()) + ", "@ + int_text(values.last() as int)
    }
}

/// A list of values in brackets, as `[1, -2, 3]`.
pub open spec fn list_text(values: Seq<i32>) -> Seq<char> {
    "["@ + values_text(values) + "]"@
}

/// Appends a list of values in brackets.
fn push_list(out: &mut String, values: &Vec<i32>)
    ensures
        final(out)@ == old(out)@ + list_text(values@),
{
    out.append("[");
    let ghost start = out@;
    let mut i: usize = 0;
    while i < values.len()
        invariant
            i <= values@.len(),
            out@ == start + values_text(values@.subrange(0, i as int)),
        decreases values@.len() - i,
    {
        let ghost before = out@;
        if i > 0 {
            out.append(", ");
        }
        push_i32(out, values[i]);
        proof {
            let prefix = values@.subrange(0, i + 1);
            assert(prefix.drop_last() =~= values@.subrange(0, i as int));
            assert(prefix.last() == values@[i as int]);
            if i == 0 {
                assert(values_text(values@.subrange(0, 0)) =~= Seq::<char>::empty());
                assert(out@ =~= start + values_text(prefix));
            } else {
                assert(out@ =~= start + values_text(prefix));
            }
        }
        i = i + 1;
    }
    assert(values@.subrange(0, values@.len() as int) =~= values@);
    out.append("]");
    assert(final(out)@ =~= old(out)@ + list_text(values@));
}

/// The content of a program spec's `spec.txt`.
pub open spec fn program_spec_text(input: Seq<i32>, expected_output: Seq<i32>) -> Seq<char> {
    "Input: "@ + list_text(input) + "\nExpected output: "@ + list_text(expected_output) + "\n"@
}

/// The content of a program spec's `spec.txt`: its input and its expected
/// output, each as a bracketed list.
pub fn program_spec_file_content(input: &Vec<i32>, expected_output: &Vec<i32>) -> (text: String)
    ensures
        text@ == program_spec_text(input@, expected_output@),
{
    let mut text = String::from_str("Input: ");
    push_list(&mut text, input);
    text.append("\nExpected output: ");
    push_list(&mut text, expected_output);
    text.append("\n");
    text
}

/// Is the segment spec the fixed segment with this text?
pub open spec fn is_fixed(spec: SegmentSpec, text: Seq<char>) -> bool {
    spec matches SegmentSpec::Fixed(t) && t@ == text
}

/// Is the segment spec the variable with this name?
pub open spec fn is_variable(spec: SegmentSpec, name: Seq<char>) -> bool {
    spec matches SegmentSpec::Variable(n) && n@ == name
}

/// Does the virtual node have this kind, handler and number of children?
pub open spec fn node_shape(n: VirtualNode, t: NodeType, h: NodeHandler, num_children: nat) -> bool {
    n.node_type == t && n.handler == h && n.children@.len() == num_children
}

/// The layout of the virtual tree:
///
/// ```text
/// /                                  directory
///   hardware/                        directory
///     <hw_spec_slug>/                directory of a hardware spec
///       spec.txt                     file
///       programs/                    directory
///         <program_spec_slug>/       directory of a program spec
///           spec.txt                 file
///           program.gdlk             the user's source file
/// ```
pub open spec fn is_vfs_tree(root: VirtualNode) -> bool {
    let hardware = root.children@[0];
    let hw_spec = hardware.children@[0];
    let programs = hw_spec.children@[1];
    let program_spec = programs.children@[0];
    &&& is_fixed(root.path_segment, ""@) && node_shape(root, NodeType::Directory, NodeHandler::SimpleDir, 1)
    &&& is_fixed(hardware.path_segment, "hardware"@) && node_shape(
        hardware,
        NodeType::Directory,
        NodeHandler::SimpleDir,
        1,
    )
    &&& is_variable(hw_spec.path_segment, "hw_spec_slug"@) && node_shape(
        hw_spec,
        NodeType::Directory,
        NodeHandler::HardwareSpec,
        2,
    )
    &&& is_fixed(hw_spec.children@[0].path_segment, "spec.txt"@) && node_shape(
        hw_spec.children@[0],
        NodeType::File,
        NodeHandler::HardwareSpecFile,
        0,
    )
    &&& is_fixed(programs.path_segment, "programs"@) && node_shape(
        programs,
        NodeType::Directory,
        NodeHandler::SimpleDir,
        1,
    )
    &&& is_variable(program_spec.path_segment, "program_spec_slug"@) && node_shape(
        program_spec,
        NodeType::Directory,
        NodeHandler::ProgramSpec,
        2,
    )
    &&& is_fixed(program_spec.children@[0].path_segment, "spec.txt"@) && node_shape(
        program_spec.children@[0],
        NodeType::File,
        NodeHandler::ProgramSpecFile,
        0,
    )
    &&& is_fixed(program_spec.children@[1].path_segment, "program.gdlk"@) && node_shape(
        program_spec.children@[1],
        NodeType::File,
        NodeHandler::ProgramSource,
        0,
    )
}

/// A vector of one node.
fn one(n: VirtualNode) -> (v: Vec<VirtualNode>)
    ensures
        v@ == seq![n],
{
    let mut v = Vec::new();
    v.push(n);
    assert(v@ =~= seq![n]);
    v
}

/// A vector of two nodes.
fn two(a: VirtualNode, b: VirtualNode) -> (v: Vec<VirtualNode>)
    ensures
        v@ == seq![a, b],
{
    let mut v = Vec::new();
    v.push(a);
    v.push(b);
    assert(v@ =~= seq![a, b]);
    v
}

/// The virtual tree that the server serves.
pub fn vfs_tree() -> (root: VirtualNode)
    ensures
        is_vfs_tree(root),
{
    let program_spec = VirtualNode::dir(
        SegmentSpec::Variable("program_spec_slug"),
        NodeHandler::ProgramSpec,
        two(
            VirtualNode::file(SegmentSpec::Fixed("spec.txt"), NodeHandler::ProgramSpecFile),
            VirtualNode::file(SegmentSpec::Fixed("program.gdlk"), NodeHandler::ProgramSource),
        ),
    );
    let programs = VirtualNode::dir(SegmentSpec::Fixed("programs"), NodeHandler::SimpleDir, one(program_spec));
    let hw_spec = VirtualNode::dir(
        SegmentSpec::Variable("hw_spec_slug"),
        NodeHandler::HardwareSpec,
        two(VirtualNode::file(SegmentSpec::Fixed("spec.txt"), NodeHandler::HardwareSpecFile), programs),
    );
    let hardware = VirtualNode::dir(SegmentSpec::Fixed("hardware"), NodeHandler::SimpleDir, one(hw_spec));
    VirtualNode::dir(SegmentSpec::Fixed(""), NodeHandler::SimpleDir, one(hardware))
}

/// An operation on the file system that cannot be done.
#[derive(Clone, Debug, PartialEq, Eq, Structural)]
pub enum VfsError {
    /// No node exists at the path.
    NodeNotFound,
    /// The operation does not apply to this kind of node: listing the
    /// children of a file, or reading the content of a directory.
    UnsupportedFileOperation,
}

/// The variables that a node's children see: the node's own variables, and
/// the node's name under its variable, if its segment is variable.
pub open spec fn child_variables(
    spec: SegmentSpec,
    vars: Map<Seq<char>, Seq<char>>,
    name: Seq<char>,
) -> Map<Seq<char>, Seq<char>> {
    match spec {
        SegmentSpec::Variable(v) => vars.insert(v@, name),
        SegmentSpec::Fixed(_) => vars,
    }
}

/// A physical node: exactly one file or directory, served by a virtual node
/// under one name, with the variables that its path binds above it.
#[derive(Debug)]
pub struct Node<'a> {
    /// The virtual node that serves this node.
    pub vnode: &'a VirtualNode,
    /// The variables of the path, without this node's own name.
    pub path_variables: PathVariables,
    /// The name of this node: the last segment of its path.
    pub path_segment: String,
}

/// The physical children of a directory as (child index, name) pairs: the
/// names of the first virtual child, then those of the second, and so on.
/// `physical[c]` holds the names of the physical nodes of virtual child `c`.
pub open spec fn listing(physical: Seq<Seq<Seq<char>>>) -> Seq<(int, Seq<char>)>
    decreases physical.len(),
{
    if physical.len() == 0 {
        Seq::empty()
    } else {
        let c = physical.len() - 1;
        listing(physical.drop_last()) + physical.last().map(|j: int, name: Seq<char>| (c, name))
    }
}

/// The names in a vector of vectors of strings.
pub open spec fn names_of(physical: Seq<Vec<String>>) -> Seq<Seq<Seq<char>>> {
    physical.map_values(|names: Vec<String>| names@.map_values(|n: String| n@))
}

/// Are the nodes, one for each entry, children of the parent with the
/// entry's child index and name, and with the given variables?
pub open spec fn nodes_listed<'a>(
    nodes: Seq<Node<'a>>,
    parent: VirtualNode,
    entries: Seq<(int, Seq<char>)>,
    vars: Map<Seq<char>, Seq<char>>,
) -> bool {
    &&& nodes.len() == entries.len()
    &&& forall|k: int|
        0 <= k < nodes.len() ==> {
            &&& 0 <= entries[k].0 < parent.children@.len()
            &&& *(#[trigger] nodes[k]).vnode == parent.children@[entries[k].0]
            &&& nodes[k].path_segment@ == entries[k].1
            &&& nodes[k].path_variables@ == vars
        }
}

impl<'a> Node<'a> {
    /// The name of this node.
    pub fn name(&self) -> (name: String)
        ensures
            name@ == self.path_segment@,
    {
        self.path_segment.clone()
    }

    /// Whether this node is a file or a directory.
    pub fn node_type(&self) -> (t: NodeType)
        ensures
            t == self.vnode.node_type,
    {
        self.vnode.node_type
    }

    /// What a user may do with this node.
    pub fn permissions(&self) -> (p: NodePermissions)
        ensures
            p == handler_permissions(self.vnode.handler),
    {
        self.vnode.handler.permissions()
    }

    /// Checks that this node is a file, whose content can be read; the
    /// content itself comes from the node's handler.
    pub fn check_file(&self) -> (r: Result<(), VfsError>)
        ensures
            r is Ok <==> self.vnode.node_type == NodeType::File,
            r is Err ==> r == Err::<(), VfsError>(VfsError::UnsupportedFileOperation),
    {
        match self.vnode.node_type {
            NodeType::File => Ok(()),
            NodeType::Directory => Err(VfsError::UnsupportedFileOperation),
        }
    }

    /// The children of this directory. `physical[c]` holds the names of the
    /// physical nodes that exist for the `c`-th virtual child, as the
    /// database lists them (see `VirtualNode::fixed_physical_nodes` for a
    /// fixed child). A file has no children.
    pub fn children(&self, physical: Vec<Vec<String>>) -> (r: Result<Vec<Node<'a>>, VfsError>)
        requires
            physical@.len() == self.vnode.children@.len(),
        ensures
            match self.vnode.node_type {
                NodeType::File => r == Err::<Vec<Node<'a>>, VfsError>(VfsError::UnsupportedFileOperation),
                NodeType::Directory => r matches Ok(nodes) && nodes_listed(
                    nodes@,
                    *self.vnode,
                    listing(names_of(physical@)),
                    child_variables(self.vnode.path_segment, self.path_variables@, self.path_segment@),
                ),
            },
    {
        if let NodeType::File = self.vnode.node_type {
            return Err(VfsError::UnsupportedFileOperation);
        }
        let mut vars = self.path_variables.duplicate();
        vars.insert_if_var(self.vnode.path_segment, self.path_segment.as_str());
        let ghost all = names_of(physical@);
        let ghost cvars = child_variables(self.vnode.path_segment, self.path_variables@, self.path_segment@);
        let parent: &'a VirtualNode = self.vnode;
        let mut out: Vec<Node<'a>> = Vec::new();
        let mut c: usize = 0;
        while c < physical.len()
            invariant
                c <= physical@.len(),
                physical@.len() == parent.children@.len(),
                all == names_of(physical@),
                vars@ == cvars,
                nodes_listed(out@, *parent, listing(all.take(c as int)), cvars),
            decreases physical@.len() - c,
        {
            let names = &physical[c];
            let ghost row = all[c as int].map(|j: int, name: Seq<char>| (c as int, name));
            let ghost base = listing(all.take(c as int));
            let mut j: usize = 0;
            while j < names.len()
                invariant
                    c < physical@.len(),
                    physical@.len() == parent.children@.len(),
                    *names == physical@[c as int],
                    all == names_of(physical@),
                    vars@ == cvars,
                    j <= names@.len(),
                    row == all[c as int].map(|j: int, name: Seq<char>| (c as int, name)),
                    nodes_listed(out@, *parent, base + row.take(j as int), cvars),
                decreases names@.len() - j,
            {
                let node = Node {
                    vnode: &parent.children[c],
                    path_variables: vars.duplicate(),
                    path_segment: names[j].clone(),
                };
                out.push(node);
                proof {
                    assert(row[j as int] == (c as int, names@[j as int]@));
                    assert(base + row.take(j + 1) =~= (base + row.take(j as int)).push(row[j as int]));
                }
                j = j + 1;
            }
            proof {
                assert(row.take(names@.len() as int) =~= row);
                assert(all.take(c + 1).drop_last() =~= all.take(c as int));
                assert(all.take(c + 1).last() == all[c as int]);
            }
            c = c + 1;
        }
        assert(all.take(physical@.len() as int) =~= all);
        Ok(out)
    }
}

impl VirtualNode {
    /// The physical nodes of a fixed virtual node: its one name where the
    /// database says that it is present, and none where it is not.
    pub fn fixed_physical_nodes(&self, present: bool) -> (names: Vec<String>)
        requires
            (self.path_segment is Fixed),
        ensures
            names@.map_values(|n: String| n@) == (if present {
                seq![self.path_segment->Fixed_0@]
            } else {
                Seq::<Seq<char>>::empty()
            }),
    {
        let mut names: Vec<String> = Vec::new();
        if let SegmentSpec::Fixed(segment) = self.path_segment {
            if present {
                names.push(String::from_str(segment));
            }
        }
        assert(names@.map_values(|n: String| n@) =~= if present {
            seq![self.path_segment->Fixed_0@]
        } else {
            Seq::<Seq<char>>::empty()
        });
        names
    }
}

/// A question for the database: does a physical node exist under this name
/// for this handler, given the variables of the path above it?
#[derive(Debug)]
pub struct ExistsQuery {
    pub handler: NodeHandler,
    pub path_variables: PathVariables,
    pub path_segment: String,
}

/// What a lookup does next: ask the database, or end with the node found, or
/// with no node at the path.
#[derive(Debug)]
pub enum LookupStep<'a> {
    Ask(ExistsQuery),
    Found(Node<'a>),
    NotFound,
}

/// The mathematical form of a lookup in progress.
pub struct LookupModel {
    /// The segments of the path.
    pub segments: Seq<Seq<char>>,
    /// The index of the segment whose node is being checked.
    pub depth: nat,
    /// The virtual node that serves that segment.
    pub node: VirtualNode,
    /// The variables of the path above that segment.
    pub vars: Map<Seq<char>, Seq<char>>,
}

/// The lookup of the physical node at a path, one segment at a time. Each
/// segment must match the virtual node at its depth (the first the root of
/// the tree, each next one the first child that matches it), and the
/// database must say that the physical node exists; the caller asks each
/// question that a step hands out and answers it with `answer`.
pub struct NodeLookup<'a> {
    segments: Vec<String>,
    depth: usize,
    node: &'a VirtualNode,
    path_variables: PathVariables,
}

impl<'a> View for NodeLookup<'a> {
    type V = LookupModel;

    closed spec fn view(&self) -> LookupModel {
        LookupModel {
            segments: self.segments@.map_values(|s: String| s@),
            depth: self.depth as nat,
            node: *self.node,
            vars: self.path_variables@,
        }
    }
}

/// Does the step ask whether the segment at `depth` exists for the node,
/// with these variables?
pub open spec fn asks<'a>(
    step: LookupStep<'a>,
    node: VirtualNode,
    vars: Map<Seq<char>, Seq<char>>,
    segment: Seq<char>,
) -> bool {
    step matches LookupStep::Ask(q) && q.handler == node.handler && q.path_variables@ == vars
        && q.path_segment@ == segment
}

impl<'a> NodeLookup<'a> {
    #[verifier::type_invariant]
    spec fn wf(self) -> bool {
        self.depth < self.segments@.len()
    }

    /// Starts the lookup of the node at the path: the path is normalized and
    /// split, and the first segment must match the root of the tree.
    pub fn start(tree: &'a VirtualNode, path: &str) -> (r: (NodeLookup<'a>, LookupStep<'a>))
        ensures
            r.0@ == (LookupModel { segments: path_segments(path@), depth: 0, node: *tree, vars: Map::empty() }),
            if segment_matches(tree.path_segment, path_segments(path@)[0]) {
                asks(r.1, *tree, Map::empty(), path_segments(path@)[0])
            } else {
                r.1 is NotFound
            },
    {
        let parts = resolve_path(path);
        let mut segments: Vec<String> = Vec::new();
        let mut i: usize = 0;
        while i < parts.len()
            invariant
                i <= parts@.len(),
                segments@.len() == i,
                forall|k: int| 0 <= k < i ==> (#[trigger] segments@[k])@ == parts@[k]@,
            decreases parts@.len() - i,
        {
            segments.push(String::from_str(parts[i]));
            i = i + 1;
        }
        assert(segments@.map_values(|s: String| s@) =~= parts@.map_values(|s: &str| s@));
        let lookup = NodeLookup { segments, depth: 0, node: tree, path_variables: PathVariables::new() };
        let step = if tree.path_segment.matches(lookup.segments[0].as_str()) {
            LookupStep::Ask(
                ExistsQuery {
                    handler: tree.handler,
                    path_variables: PathVariables::new(),
                    path_segment: lookup.segments[0].clone(),
                },
            )
        } else {
            LookupStep::NotFound
        };
        (lookup, step)
    }

    /// Takes the database's answer to the last question. A node that does
    /// not exist ends the lookup with `NotFound`. The node of the last
    /// segment is the node found. Otherwise the next segment goes to the
    /// first child that matches it, or to `NotFound` if none does; the
    /// current segment's name joins the variables if its segment is
    /// variable, and the child's existence is asked next.
    pub fn answer(self, present: bool) -> (r: (NodeLookup<'a>, LookupStep<'a>))
        ensures
            ({
                let m = self@;
                let segs = m.segments;
                let d = m.depth as int;
                if !present {
                    r.0@ == m && r.1 is NotFound
                } else if d + 1 == segs.len() {
                    &&& r.0@ == m
                    &&& r.1 matches LookupStep::Found(n) && *n.vnode == m.node && n.path_variables@ == m.vars
                        && n.path_segment@ == segs[d]
                } else {
                    match first_matching(m.node.children@, segs[d + 1]) {
                        None => r.0@ == m && r.1 is NotFound,
                        Some(c) => {
                            let child = m.node.children@[c];
                            let vars = child_variables(m.node.path_segment, m.vars, segs[d]);
                            &&& r.0@ == (LookupModel { segments: segs, depth: (d + 1) as nat, node: child, vars })
                            &&& asks(r.1, child, vars, segs[d + 1])
                        },
                    }
                }
            }),
    {
        proof {
            use_type_invariant(&self);
        }
        let mut lookup = self;
        if !present {
            return (lookup, LookupStep::NotFound);
        }
        let d = lookup.depth;
        let len = lookup.segments.len();
        assert(d < len);
        if d + 1 == len {
            let node = Node {
                vnode: lookup.node,
                path_variables: lookup.path_variables.duplicate(),
                path_segment: lookup.segments[d].clone(),
            };
            return (lookup, LookupStep::Found(node));
        }
        let node: &'a VirtualNode = lookup.node;
        match node.find_child(lookup.segments[d + 1].as_str()) {
            None => (lookup, LookupStep::NotFound),
            Some(c) => {
                let NodeLookup { segments, depth, node: _, mut path_variables } = lookup;
                path_variables.insert_if_var(node.path_segment, segments[d].as_str());
                let child: &'a VirtualNode = &node.children[c];
                let query = ExistsQuery {
                    handler: child.handler,
                    path_variables: path_variables.duplicate(),
                    path_segment: segments[d + 1].clone(),
                };
                (NodeLookup { segments, depth: d + 1, node: child, path_variables }, LookupStep::Ask(query))
            },
        }
    }
}

} // verus!
