//! The layout that the builder produces: placed nodes, connections, a view
//! box and where each ascendancy starts.
use crate::ascendancy::{asc_at, asc_index, Ascendancy};
use crate::geometry::{Coord, Sweep};
use crate::order::CanonicalOrder;
use vstd::prelude::*;

verus! {

/// The role of a node inside an ascendancy.
#[derive(Debug, Clone, Copy, PartialEq, Eq, Structural)]
pub enum AscendancyNodeKind {
    Start,
    Normal,
    Notable,
}

/// What a node is, which decides how it is drawn.
#[derive(Debug, Clone, Copy, PartialEq, Eq, Structural)]
pub enum NodeKind {
    Jewel,
    Normal,
    Notable,
    Mastery,
    Keystone,
    Ascendancy { kind: AscendancyNodeKind, ascendancy: Ascendancy },
}

pub open spec fn kind_name(k: NodeKind) -> Seq<char> {
    match k {
        NodeKind::Jewel => "Jewel"@,
        NodeKind::Normal => "Normal"@,
        NodeKind::Notable => "Notable"@,
        NodeKind::Mastery => "Mastery"@,
        NodeKind::Keystone => "Keystone"@,
        NodeKind::Ascendancy { .. } => "Ascendancy"@,
    }
}

impl NodeKind {
    /// The name of the kind, without the ascendancy it belongs to.
    pub fn as_str(&self) -> (r: &'static str)
        ensures
            r@ == kind_name(*self),
    {
        match self {
            NodeKind::Jewel => "Jewel",
            NodeKind::Normal => "Normal",
            NodeKind::Notable => "Notable",
            NodeKind::Mastery => "Mastery",
            NodeKind::Keystone => "Keystone",
            NodeKind::Ascendancy { .. } => "Ascendancy",
        }
    }
}

/// A node at its final place in the layout.
#[derive(Debug, Clone, Copy, PartialEq, Eq, Structural)]
pub struct Node {
    pub id: u16,
    pub position: Coord,
    pub kind: NodeKind,
}

/// One end of a connection.
#[derive(Debug, Clone, Copy, PartialEq, Eq, Structural)]
pub struct NodeRef {
    pub id: u16,
    pub position: Coord,
    pub kind: NodeKind,
}

/// How a connection is drawn: an arc along an orbit, or a straight line.
#[derive(Debug, Clone, Copy, PartialEq, Eq, Structural)]
pub enum Path {
    Arc { sweep: Sweep, radius: u32 },
    Line {},
}

/// A connection from node `a` to node `b`.
#[derive(Debug, Clone, Copy, PartialEq, Eq, Structural)]
pub struct Connection {
    pub a: NodeRef,
    pub b: NodeRef,
    pub path: Path,
}

/// The area that holds every node, with a margin on each side.
#[derive(Debug, Clone, Copy, PartialEq, Eq, Structural)]
pub struct ViewBox {
    pub x: i32,
    pub y: i32,
    pub dx: u32,
    pub dy: u32,
}

/// Where an ascendancy is found: the class and ascendancy numbers that a
/// build token uses for it, and its start node.
#[derive(Debug, Clone, Copy, PartialEq, Eq, Structural, Hash)]
pub struct AscendancyInfo {
    pub class: u8,
    pub ascendancy: u8,
    pub start_node: u16,
}

/// A finished layout.
#[derive(Debug)]
pub struct Tree {
    pub view_box: ViewBox,
    /// Every node, in canonical order.
    pub nodes: Vec<Node>,
    /// Every connection, in canonical order.
    pub connections: Vec<Connection>,
    /// One entry per ordinary ascendancy, in ascendancy order.
    pub ascendancies: Vec<(Ascendancy, AscendancyInfo)>,
    /// One entry per alternate ascendancy and class, ordered by ascendancy
    /// and then class.
    pub alternate_ascendancies: Vec<(Ascendancy, AscendancyInfo)>,
}

pub open spec fn sub_code(k: AscendancyNodeKind) -> int {
    match k {
        AscendancyNodeKind::Start => 0,
        AscendancyNodeKind::Normal => 1,
        AscendancyNodeKind::Notable => 2,
    }
}

/// A number for each kind, in the order in which kinds are sorted.
pub open spec fn kind_code(k: NodeKind) -> int {
    match k {
        NodeKind::Jewel => 0,
        NodeKind::Normal => 1,
        NodeKind::Notable => 2,
        NodeKind::Mastery => 3,
        NodeKind::Keystone => 4,
        NodeKind::Ascendancy { kind, ascendancy } => 5 + 32 * sub_code(kind) + asc_index(
            ascendancy,
        ),
    }
}

proof fn lemma_asc_index(a: Ascendancy)
    ensures
        asc_at(asc_index(a)) == a,
        0 <= asc_index(a) < 32,
{
}

proof fn lemma_kind_code_injective(k: NodeKind, l: NodeKind)
    ensures
        kind_code(k) == kind_code(l) ==> k == l,
{
    if let NodeKind::Ascendancy { ascendancy, .. } = k {
        lemma_asc_index(ascendancy);
    }
    if let NodeKind::Ascendancy { ascendancy, .. } = l {
        lemma_asc_index(ascendancy);
    }
}

fn kind_code_exec(k: NodeKind) -> (r: u32)
    ensures
        r == kind_code(k),
{
    match k {
        NodeKind::Jewel => 0,
        NodeKind::Normal => 1,
        NodeKind::Notable => 2,
        NodeKind::Mastery => 3,
        NodeKind::Keystone => 4,
        NodeKind::Ascendancy { kind, ascendancy } => {
            let s: u32 = match kind {
                AscendancyNodeKind::Start => 0,
                AscendancyNodeKind::Normal => 1,
                AscendancyNodeKind::Notable => 2,
            };
            5 + 32 * s + ascendancy.index() as u32
        },
    }
}

/// Strict order on (id, x, y, kind).
pub open spec fn key_lt(id1: u16, p1: Coord, k1: NodeKind, id2: u16, p2: Coord, k2: NodeKind) -> bool {
    id1 < id2 || (id1 == id2 && (p1.x < p2.x || (p1.x == p2.x && (p1.y < p2.y || (p1.y == p2.y
        && kind_code(k1) < kind_code(k2))))))
}

fn key_lt_exec(id1: u16, p1: Coord, k1: NodeKind, id2: u16, p2: Coord, k2: NodeKind) -> (r: bool)
    ensures
        r == key_lt(id1, p1, k1, id2, p2, k2),
{
    if id1 != id2 {
        id1 < id2
    } else if p1.x != p2.x {
        p1.x < p2.x
    } else if p1.y != p2.y {
        p1.y < p2.y
    } else {
        kind_code_exec(k1) < kind_code_exec(k2)
    }
}

proof fn lemma_key_order(
    id1: u16,
    p1: Coord,
    k1: NodeKind,
    id2: u16,
    p2: Coord,
    k2: NodeKind,
)
    ensures
        !key_lt(id1, p1, k1, id2, p2, k2) && !key_lt(id2, p2, k2, id1, p1, k1) ==> id1 == id2
            && p1 == p2 && k1 == k2,
{
    lemma_kind_code_injective(k1, k2);
}

impl CanonicalOrder for Node {
    open spec fn spec_le(self, other: Node) -> bool {
        !key_lt(other.id, other.position, other.kind, self.id, self.position, self.kind)
    }

    proof fn lemma_total_order(a: Node, b: Node, c: Node) {
        lemma_key_order(a.id, a.position, a.kind, b.id, b.position, b.kind);
    }

    fn le(&self, other: &Node) -> (r: bool) {
        !key_lt_exec(other.id, other.position, other.kind, self.id, self.position, self.kind)
    }
}

pub open spec fn ref_lt(a: NodeRef, b: NodeRef) -> bool {
    key_lt(a.id, a.position, a.kind, b.id, b.position, b.kind)
}

/// A number for each path, in the order in which paths are sorted.
pub open spec fn path_code(p: Path) -> int {
    match p {
        Path::Arc { sweep: Sweep::Clockwise, radius } => radius as int,
        Path::Arc { sweep: Sweep::CounterClockwise, radius } => 0x1_0000_0000 + radius,
        Path::Line {  } => 0x2_0000_0000,
    }
}

fn path_code_exec(p: Path) -> (r: u64)
    ensures
        r == path_code(p),
{
    match p {
        Path::Arc { sweep: Sweep::Clockwise, radius } => radius as u64,
        Path::Arc { sweep: Sweep::CounterClockwise, radius } => 0x1_0000_0000 + radius as u64,
        Path::Line {  } => 0x2_0000_0000,
    }
}

impl CanonicalOrder for Connection {
    open spec fn spec_le(self, other: Connection) -> bool {
        ref_lt(self.a, other.a) || (self.a == other.a && (ref_lt(self.b, other.b) || (self.b
            == other.b && path_code(self.path) <= path_code(other.path))))
    }

    proof fn lemma_total_order(a: Connection, b: Connection, c: Connection) {
        lemma_key_order(a.a.id, a.a.position, a.a.kind, b.a.id, b.a.position, b.a.kind);
        lemma_key_order(a.b.id, a.b.position, a.b.kind, b.b.id, b.b.position, b.b.kind);
        assert(path_code(a.path) == path_code(b.path) ==> a.path == b.path);
    }

    fn le(&self, other: &Connection) -> (r: bool) {
        let a1 = self.a;
        let a2 = other.a;
        if key_lt_exec(a1.id, a1.position, a1.kind, a2.id, a2.position, a2.kind) {
            return true;
        }
        if key_lt_exec(a2.id, a2.position, a2.kind, a1.id, a1.position, a1.kind) {
            return false;
        }
        proof {
            lemma_key_order(a1.id, a1.position, a1.kind, a2.id, a2.position, a2.kind);
        }
        let b1 = self.b;
        let b2 = other.b;
        if key_lt_exec(b1.id, b1.position, b1.kind, b2.id, b2.position, b2.kind) {
            return true;
        }
        if key_lt_exec(b2.id, b2.position, b2.kind, b1.id, b1.position, b1.kind) {
            return false;
        }
        proof {
            lemma_key_order(b1.id, b1.position, b1.kind, b2.id, b2.position, b2.kind);
        }
        path_code_exec(self.path) <= path_code_exec(other.path)
    }
}

} // verus!
