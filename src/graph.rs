//! The skill tree as the game data gives it, and what the layout makes of
//! each of its nodes and edges.
use crate::ascendancy::{is_alternate_spec, name_of, parse_ascendancy, Ascendancy};
use crate::geometry::{slot_angle, slot_angle_of, sweep_between, sweep_of, valid_slot, Coord};
use crate::tree::{AscendancyNodeKind, Connection, Node, NodeKind, NodeRef, Path};
use vstd::prelude::*;

verus! {

/// A node of the game data. `position` is where its orbit slot lies,
/// rounded to integers; `out` holds indices into `TreeData::nodes`.
pub struct NodeData {
    pub id: u16,
    pub group: Option<u32>,
    pub orbit: Option<u32>,
    pub orbit_index: u32,
    pub position: Coord,
    pub is_keystone: bool,
    pub is_mastery: bool,
    pub is_notable: bool,
    pub is_jewel_socket: bool,
    pub is_ascendancy_start: bool,
    pub ascendancy_name: Option<String>,
    pub class_start_index: Option<u32>,
    pub out: Vec<usize>,
}

/// A group of the game data; `nodes` holds indices into `TreeData::nodes`.
pub struct GroupData {
    pub is_proxy: bool,
    pub nodes: Vec<usize>,
}

/// A class and the names of its ascendancies, in order.
pub struct ClassData {
    pub ascendancies: Vec<String>,
}

/// The game data that a layout is built from.
pub struct TreeData {
    pub groups: Vec<GroupData>,
    pub nodes: Vec<NodeData>,
    /// The radius of each orbit.
    pub orbit_radii: Vec<u32>,
    /// The number of slots of each orbit.
    pub skills_per_orbit: Vec<u32>,
    pub classes: Vec<ClassData>,
    /// The names of the alternate ascendancies, in order.
    pub alternate_ascendancies: Vec<String>,
}

/// How far from the origin a node of the game data may lie, so that
/// moving an ascendancy and padding the view box stay within 32 bits.
pub open spec fn coord_bound() -> int {
    0x1000_0000
}

pub open spec fn node_wf(t: TreeData, n: NodeData) -> bool {
    &&& forall|k: int| 0 <= k < n.out@.len() ==> #[trigger] n.out@[k] < t.nodes@.len()
    &&& -coord_bound() <= n.position.x <= coord_bound()
    &&& -coord_bound() <= n.position.y <= coord_bound()
    &&& n.orbit matches Some(o) ==> {
        &&& o < t.orbit_radii@.len()
        &&& o < t.skills_per_orbit@.len()
        &&& valid_slot(t.skills_per_orbit@[o as int], n.orbit_index)
    }
}

/// The game data is consistent: every index points at a node, every orbit
/// exists and every slot fits its orbit.
pub open spec fn tree_wf(t: TreeData) -> bool {
    &&& forall|g: int, m: int|
        0 <= g < t.groups@.len() && 0 <= m < t.groups@[g].nodes@.len()
            ==> #[trigger] t.groups@[g].nodes@[m] < t.nodes@.len()
    &&& forall|i: int| 0 <= i < t.nodes@.len() ==> node_wf(t, #[trigger] t.nodes@[i])
}

pub open spec fn node_at(t: TreeData, i: usize) -> NodeData {
    t.nodes@[i as int]
}

/// What kind a node is; `None` for an ascendancy node whose name is unknown.
/// Ascendancy membership comes first, then keystone, mastery, notable and
/// jewel socket.
pub open spec fn kind_of(n: NodeData) -> Option<NodeKind> {
    match n.ascendancy_name {
        Some(s) => match parse_ascendancy(s@) {
            Some(a) => Some(
                NodeKind::Ascendancy {
                    kind: if n.is_ascendancy_start {
                        AscendancyNodeKind::Start
                    } else if n.is_notable {
                        AscendancyNodeKind::Notable
                    } else {
                        AscendancyNodeKind::Normal
                    },
                    ascendancy: a,
                },
            ),
            None => None,
        },
        None => Some(
            if n.is_keystone {
                NodeKind::Keystone
            } else if n.is_mastery {
                NodeKind::Mastery
            } else if n.is_notable {
                NodeKind::Notable
            } else if n.is_jewel_socket {
                NodeKind::Jewel
            } else {
                NodeKind::Normal
            },
        ),
    }
}

/// The ascendancy a node belongs to, if any.
pub open spec fn asc_of(n: NodeData) -> Option<Ascendancy> {
    match kind_of(n) {
        Some(NodeKind::Ascendancy { ascendancy, .. }) => Some(ascendancy),
        _ => None,
    }
}

/// Class start nodes are placeholders and are left out.
pub open spec fn is_placed(n: NodeData) -> bool {
    n.class_start_index is None
}

/// Edges that are drawn: not into a class start, not touching a mastery, and
/// not between an ascendancy node and a node of the main tree.
pub open spec fn kept(a: NodeData, b: NodeData) -> bool {
    &&& is_placed(b)
    &&& !a.is_mastery
    &&& !b.is_mastery
    &&& (a.ascendancy_name is Some) == (b.ascendancy_name is Some)
}

/// Two nodes lie on one orbit of one group.
pub open spec fn same_orbit(a: NodeData, b: NodeData) -> bool {
    a.group == b.group && a.orbit == b.orbit && a.orbit is Some
}

/// How the connection from `a` to `b` is drawn.
pub open spec fn path_of(t: TreeData, a: NodeData, b: NodeData) -> Path {
    if same_orbit(a, b) {
        let o = a.orbit->Some_0 as int;
        let slots = t.skills_per_orbit@[o];
        Path::Arc {
            sweep: sweep_of(slot_angle_of(slots, a.orbit_index), slot_angle_of(slots, b.orbit_index)),
            radius: t.orbit_radii@[o],
        }
    } else {
        Path::Line {  }
    }
}

pub open spec fn filter_members(t: TreeData, m: Seq<usize>) -> Seq<usize>
    decreases m.len(),
{
    if m.len() == 0 {
        Seq::empty()
    } else {
        let rest = filter_members(t, m.drop_last());
        if is_placed(node_at(t, m.last())) {
            rest.push(m.last())
        } else {
            rest
        }
    }
}

pub open spec fn group_members(t: TreeData, g: int) -> Seq<usize> {
    if t.groups@[g].is_proxy {
        Seq::empty()
    } else {
        filter_members(t, t.groups@[g].nodes@)
    }
}

pub open spec fn placed_upto(t: TreeData, g: int) -> Seq<usize>
    decreases g,
{
    if g <= 0 {
        Seq::empty()
    } else {
        placed_upto(t, g - 1) + group_members(t, g - 1)
    }
}

/// The nodes that the layout holds, in the order of the game data: the
/// members of groups that are not proxies, class starts left out.
pub open spec fn placed(t: TreeData) -> Seq<usize> {
    placed_upto(t, t.groups@.len() as int)
}

/// The last node of `s` that starts ascendancy `a`.
pub open spec fn start_in(t: TreeData, s: Seq<usize>, a: Ascendancy) -> Option<usize>
    decreases s.len(),
{
    if s.len() == 0 {
        None
    } else if asc_of(node_at(t, s.last())) == Some(a) && node_at(t, s.last()).is_ascendancy_start {
        Some(s.last())
    } else {
        start_in(t, s.drop_last(), a)
    }
}

/// Some node of `s` belongs to ascendancy `a`.
pub open spec fn seen_in(t: TreeData, s: Seq<usize>, a: Ascendancy) -> bool
    decreases s.len(),
{
    s.len() > 0 && (asc_of(node_at(t, s.last())) == Some(a) || seen_in(t, s.drop_last(), a))
}

pub open spec fn start_position(t: TreeData, a: Ascendancy) -> Coord {
    match start_in(t, placed(t), a) {
        Some(i) => node_at(t, i).position,
        None => Coord { x: 0, y: 0 },
    }
}

pub open spec fn start_node(t: TreeData, a: Ascendancy) -> u16 {
    match start_in(t, placed(t), a) {
        Some(i) => node_at(t, i).id,
        None => 0,
    }
}

/// Where the start node of an ordinary ascendancy is moved, right of the
/// tree; alternate ascendancies are mirrored to the left.
pub const ANCHOR_X: i32 = 7000;

pub const ANCHOR_Y: i32 = -7700;

/// Where the start node of an ascendancy is moved.
pub open spec fn anchor(a: Ascendancy) -> Coord {
    Coord { x: if is_alternate_spec(a) { (-ANCHOR_X) as i32 } else { ANCHOR_X }, y: ANCHOR_Y }
}

/// Where a point drawn for node `n` ends up: moved with `n`'s ascendancy, so
/// that the ascendancy's start node lands on its anchor.
pub open spec fn moved(t: TreeData, n: NodeData, c: Coord) -> Coord {
    match asc_of(n) {
        Some(a) => Coord {
            x: (c.x + anchor(a).x - start_position(t, a).x) as i32,
            y: (c.y + anchor(a).y - start_position(t, a).y) as i32,
        },
        None => c,
    }
}

/// A node as the layout holds it.
pub open spec fn final_node(t: TreeData, i: usize) -> Node {
    let n = node_at(t, i);
    Node { id: n.id, position: moved(t, n, n.position), kind: kind_of(n)->Some_0 }
}

/// The connection from `a` to `b` as the layout holds it; both ends move
/// with `a`'s ascendancy.
pub open spec fn final_conn(t: TreeData, a: NodeData, b: NodeData) -> Connection {
    Connection {
        a: NodeRef { id: a.id, position: moved(t, a, a.position), kind: kind_of(a)->Some_0 },
        b: NodeRef { id: b.id, position: moved(t, a, b.position), kind: kind_of(b)->Some_0 },
        path: path_of(t, a, b),
    }
}

/// The connections drawn from `a` along the edges `outs`.
pub open spec fn conns_from(t: TreeData, a: NodeData, outs: Seq<usize>) -> Seq<Connection>
    decreases outs.len(),
{
    if outs.len() == 0 {
        Seq::empty()
    } else {
        let rest = conns_from(t, a, outs.drop_last());
        let b = node_at(t, outs.last());
        if kept(a, b) {
            rest.push(final_conn(t, a, b))
        } else {
            rest
        }
    }
}

/// The connections drawn from the nodes of `s`, in order.
pub open spec fn conns_of(t: TreeData, s: Seq<usize>) -> Seq<Connection>
    decreases s.len(),
{
    if s.len() == 0 {
        Seq::empty()
    } else {
        conns_of(t, s.drop_last()) + conns_from(t, node_at(t, s.last()), node_at(t, s.last()).out@)
    }
}

/// The nodes of `s` all have a known kind.
pub open spec fn kinds_ok(t: TreeData, s: Seq<usize>) -> bool {
    forall|k: int| 0 <= k < s.len() ==> (#[trigger] kind_of(node_at(t, s[k]))) is Some
}

/// Every edge kept from `a` along `outs` leads to a node of known kind.
pub open spec fn targets_named(t: TreeData, a: NodeData, outs: Seq<usize>) -> bool {
    forall|m: int|
        0 <= m < outs.len() && kept(a, node_at(t, outs[m])) ==> (#[trigger] kind_of(
            node_at(t, outs[m]),
        )) is Some
}

pub open spec fn targets_ok(t: TreeData, s: Seq<usize>) -> bool {
    forall|k: int|
        0 <= k < s.len() ==> #[trigger] targets_named(t, node_at(t, s[k]), node_at(t, s[k]).out@)
}

/// The first position, from `i` on, of a name in a list of names.
pub open spec fn first_name_from(names: Seq<String>, name: Seq<char>, i: int) -> Option<int>
    decreases names.len() - i,
{
    if i < 0 || i >= names.len() {
        None
    } else if names[i]@ == name {
        Some(i)
    } else {
        first_name_from(names, name, i + 1)
    }
}

/// The first class, from `c` on, that lists an ascendancy named `name`, and
/// the ascendancy's number in it, counted from one.
pub open spec fn class_lookup_from(t: TreeData, name: Seq<char>, c: int) -> Option<(int, int)>
    decreases t.classes@.len() - c,
{
    if c < 0 || c >= t.classes@.len() {
        None
    } else {
        match first_name_from(t.classes@[c].ascendancies@, name, 0) {
            Some(k) => Some((c, k + 1)),
            None => class_lookup_from(t, name, c + 1),
        }
    }
}

/// The numbers of an alternate ascendancy, counted from one.
pub open spec fn alt_number(t: TreeData, a: Ascendancy) -> Option<int> {
    match first_name_from(t.alternate_ascendancies@, name_of(a), 0) {
        Some(k) => Some(k + 1),
        None => None,
    }
}

pub fn node_kind(n: &NodeData) -> (r: Option<NodeKind>)
    ensures
        r == kind_of(*n),
{
    match &n.ascendancy_name {
        Some(name) => match Ascendancy::from_name(name) {
            Some(a) => {
                let kind = if n.is_ascendancy_start {
                    AscendancyNodeKind::Start
                } else if n.is_notable {
                    AscendancyNodeKind::Notable
                } else {
                    AscendancyNodeKind::Normal
                };
                Some(NodeKind::Ascendancy { kind, ascendancy: a })
            },
            None => None,
        },
        None => Some(
            if n.is_keystone {
                NodeKind::Keystone
            } else if n.is_mastery {
                NodeKind::Mastery
            } else if n.is_notable {
                NodeKind::Notable
            } else if n.is_jewel_socket {
                NodeKind::Jewel
            } else {
                NodeKind::Normal
            },
        ),
    }
}

pub fn filter_group(g: &GroupData) -> (r: bool)
    ensures
        r == !g.is_proxy,
{
    !g.is_proxy
}

pub fn filter_node(n: &NodeData) -> (r: bool)
    ensures
        r == is_placed(*n),
{
    n.class_start_index.is_none()
}

pub fn filter_connection(a: &NodeData, b: &NodeData) -> (r: bool)
    ensures
        r == kept(*a, *b),
{
    filter_node(b) && !a.is_mastery && !b.is_mastery && (a.ascendancy_name.is_some()
        == b.ascendancy_name.is_some())
}

fn same_opt(a: Option<u32>, b: Option<u32>) -> (r: bool)
    ensures
        r == (a == b),
{
    match (a, b) {
        (Some(x), Some(y)) => x == y,
        (None, None) => true,
        _ => false,
    }
}

/// How the connection from `a` to `b` is drawn: an arc exactly when both lie
/// on one orbit of one group, a line otherwise.
pub fn connection_path(t: &TreeData, a: &NodeData, b: &NodeData) -> (r: Path)
    requires
        node_wf(*t, *a),
        node_wf(*t, *b),
    ensures
        r == path_of(*t, *a, *b),
        r is Arc <==> same_orbit(*a, *b),
{
    if same_opt(a.group, b.group) && same_opt(a.orbit, b.orbit) {
        if let Some(o) = a.orbit {
            let o = o as usize;
            let slots = t.skills_per_orbit[o];
            let from = slot_angle(slots, a.orbit_index);
            let to = slot_angle(slots, b.orbit_index);
            return Path::Arc { sweep: sweep_between(from, to), radius: t.orbit_radii[o] };
        }
    }
    Path::Line {  }
}

/// The first position of `name` in `names`.
pub fn find_name(names: &Vec<String>, name: &String) -> (r: Option<usize>)
    ensures
        match r {
            Some(i) => first_name_from(names@, name@, 0) == Some(i as int) && i < names@.len(),
            None => first_name_from(names@, name@, 0) is None,
        },
        names@.len() <= usize::MAX,
{
    let mut i: usize = 0;
    let len = names.len();
    while i < len
        invariant
            len == names@.len(),
            i <= names@.len(),
            first_name_from(names@, name@, 0) == first_name_from(names@, name@, i as int),
        decreases names@.len() - i,
    {
        if names[i] == *name {
            return Some(i);
        }
        i = i + 1;
    }
    None
}

} // verus!
