use tmm::ascendancy::Ascendancy;
use tmm::build;
use tmm::geometry::{Coord, Sweep};
use tmm::graph::{ClassData, GroupData, NodeData, TreeData};
use tmm::layout::LayoutError;
use tmm::tree::{AscendancyInfo, AscendancyNodeKind, Connection, Node, NodeKind, Path, ViewBox};

fn node(id: u16, x: i32, y: i32) -> NodeData {
    NodeData {
        id,
        group: Some(1),
        orbit: Some(0),
        orbit_index: 0,
        position: Coord { x, y },
        is_keystone: false,
        is_mastery: false,
        is_notable: false,
        is_jewel_socket: false,
        is_ascendancy_start: false,
        ascendancy_name: None,
        class_start_index: None,
        out: vec![],
    }
}

fn asc_node(id: u16, x: i32, y: i32, name: &str, start: bool) -> NodeData {
    NodeData {
        group: Some(50),
        orbit: Some(1),
        ascendancy_name: Some(name.to_string()),
        is_ascendancy_start: start,
        ..node(id, x, y)
    }
}

fn data(nodes: Vec<NodeData>, groups: Vec<(bool, Vec<usize>)>) -> TreeData {
    TreeData {
        groups: groups.into_iter().map(|(is_proxy, nodes)| GroupData { is_proxy, nodes }).collect(),
        nodes,
        orbit_radii: vec![0, 82, 162],
        skills_per_orbit: vec![1, 6, 16],
        classes: vec![
            ClassData { ascendancies: vec!["Slayer".to_string(), "Gladiator".to_string()] },
            ClassData { ascendancies: vec!["Juggernaut".to_string(), "Berserker".to_string()] },
        ],
        alternate_ascendancies: vec!["Warden".to_string(), "Primalist".to_string()],
    }
}

fn pos(x: i32, y: i32) -> Coord {
    Coord { x, y }
}

#[test]
fn view_box_is_padded() {
    let t = data(vec![node(1, -50, -50), node(2, 50, 50)], vec![(false, vec![0, 1])]);
    let tree = build(&t).unwrap();
    assert_eq!(tree.view_box, ViewBox { x: -125, y: -125, dx: 250, dy: 250 });
}

#[test]
fn single_node_view_box() {
    let t = data(vec![node(1, 10, -20)], vec![(false, vec![0])]);
    let tree = build(&t).unwrap();
    assert_eq!(tree.view_box, ViewBox { x: -65, y: -95, dx: 150, dy: 150 });
}

#[test]
fn ascendancy_is_moved_to_its_anchor() {
    let mut start = asc_node(10, 1000, 2000, "Juggernaut", true);
    start.out = vec![2];
    let mut other = asc_node(11, 1100, 2150, "Juggernaut", false);
    other.is_notable = true;
    let nodes = vec![start, node(1, 0, 0), other];
    let t = data(nodes, vec![(false, vec![1]), (false, vec![0, 2])]);
    let tree = build(&t).unwrap();
    let jug = |kind| NodeKind::Ascendancy { kind, ascendancy: Ascendancy::Juggernaut };
    assert_eq!(
        tree.nodes,
        vec![
            Node { id: 1, position: pos(0, 0), kind: NodeKind::Normal },
            Node { id: 10, position: pos(7000, -7700), kind: jug(AscendancyNodeKind::Start) },
            Node { id: 11, position: pos(7100, -7550), kind: jug(AscendancyNodeKind::Notable) },
        ]
    );
    assert_eq!(tree.connections.len(), 1);
    let c = &tree.connections[0];
    assert_eq!(c.a.position, pos(7000, -7700));
    assert_eq!(c.b.position, pos(7100, -7550));
    assert_eq!(
        tree.ascendancies,
        vec![(Ascendancy::Juggernaut, AscendancyInfo { class: 1, ascendancy: 1, start_node: 10 })]
    );
    assert!(tree.alternate_ascendancies.is_empty());
    // The box holds the main tree and the moved ascendancy, not where it was.
    assert_eq!(tree.view_box, ViewBox { x: -75, y: -7775, dx: 7250, dy: 7850 });
}

#[test]
fn alternate_ascendancy_is_mirrored_and_listed_per_class() {
    let nodes = vec![node(1, 0, 0), asc_node(20, -300, 400, "Primalist", true)];
    let t = data(nodes, vec![(false, vec![0, 1])]);
    let tree = build(&t).unwrap();
    assert_eq!(tree.nodes[1].position, pos(-7000, -7700));
    assert_eq!(
        tree.alternate_ascendancies,
        vec![
            (Ascendancy::Primalist, AscendancyInfo { class: 0, ascendancy: 2, start_node: 20 }),
            (Ascendancy::Primalist, AscendancyInfo { class: 1, ascendancy: 2, start_node: 20 }),
        ]
    );
    assert!(tree.ascendancies.is_empty());
}

#[test]
fn unlisted_ordinary_ascendancy_falls_back_to_zero() {
    let nodes = vec![asc_node(30, 5, 5, "Occultist", true), asc_node(31, 9, 9, "Gladiator", true)];
    let t = data(nodes, vec![(false, vec![0, 1])]);
    let tree = build(&t).unwrap();
    assert_eq!(
        tree.ascendancies,
        vec![
            (Ascendancy::Occultist, AscendancyInfo { class: 0, ascendancy: 0, start_node: 30 }),
            (Ascendancy::Gladiator, AscendancyInfo { class: 0, ascendancy: 2, start_node: 31 }),
        ]
    );
}

#[test]
fn ascendancy_without_start_keeps_offset_from_origin() {
    let t = data(vec![asc_node(40, 10, 20, "Slayer", false)], vec![(false, vec![0])]);
    let tree = build(&t).unwrap();
    assert_eq!(tree.nodes[0].position, pos(7010, -7680));
    assert_eq!(tree.ascendancies[0].1.start_node, 0);
}

#[test]
fn missing_alternate_ascendancy_is_an_error() {
    let mut t = data(vec![asc_node(20, 0, 0, "Warden", true)], vec![(false, vec![0])]);
    t.alternate_ascendancies = vec!["Warlock".to_string()];
    assert_eq!(build(&t).err(), Some(LayoutError::MissingAlternateAscendancy));
}

#[test]
fn unknown_ascendancy_name_is_an_error() {
    let t = data(vec![asc_node(20, 0, 0, "Nobody", true)], vec![(false, vec![0])]);
    assert_eq!(build(&t).err(), Some(LayoutError::UnknownAscendancy));
}

#[test]
fn unknown_ascendancy_at_an_edge_is_an_error() {
    let mut a = asc_node(20, 0, 0, "Slayer", true);
    a.out = vec![1];
    let b = asc_node(21, 0, 0, "Nobody", false);
    let t = data(vec![a, b], vec![(false, vec![0]), (true, vec![1])]);
    assert_eq!(build(&t).err(), Some(LayoutError::UnknownAscendancy));
}

#[test]
fn nothing_placed_is_an_error() {
    let t = data(vec![node(1, 0, 0)], vec![(true, vec![0])]);
    assert_eq!(build(&t).err(), Some(LayoutError::Empty));
    let t = data(vec![], vec![]);
    assert_eq!(build(&t).err(), Some(LayoutError::Empty));
}

#[test]
fn kinds_follow_precedence() {
    let mut keystone = node(1, 0, 0);
    keystone.is_keystone = true;
    keystone.is_notable = true;
    let mut mastery = node(2, 0, 0);
    mastery.is_mastery = true;
    let mut notable = node(3, 0, 0);
    notable.is_notable = true;
    notable.is_jewel_socket = true;
    let mut jewel = node(4, 0, 0);
    jewel.is_jewel_socket = true;
    let mut asc = asc_node(5, 0, 0, "Raider", false);
    asc.is_jewel_socket = true;
    asc.is_keystone = true;
    let t = data(vec![keystone, mastery, notable, jewel, asc, node(6, 0, 0)], vec![(false, vec![0, 1, 2, 3, 4, 5])]);
    let tree = build(&t).unwrap();
    let kinds: Vec<NodeKind> = tree.nodes.iter().map(|n| n.kind).collect();
    assert_eq!(
        kinds,
        vec![
            NodeKind::Keystone,
            NodeKind::Mastery,
            NodeKind::Notable,
            NodeKind::Jewel,
            NodeKind::Ascendancy { kind: AscendancyNodeKind::Normal, ascendancy: Ascendancy::Raider },
            NodeKind::Normal,
        ]
    );
}

#[test]
fn proxies_class_starts_and_masteries_are_left_out() {
    let mut a = node(1, 0, 0);
    a.out = vec![1, 2, 3, 4];
    let mut start = node(2, 5, 5);
    start.class_start_index = Some(0);
    let mut mastery = node(3, 6, 6);
    mastery.is_mastery = true;
    let hidden = node(4, 7, 7);
    let asc = asc_node(5, 8, 8, "Slayer", true);
    let t = data(vec![a, start, mastery, hidden, asc], vec![(false, vec![0, 1, 2]), (true, vec![3])]);
    let tree = build(&t).unwrap();
    let ids: Vec<u16> = tree.nodes.iter().map(|n| n.id).collect();
    assert_eq!(ids, vec![1, 3]);
    // only the edge into the node of the proxy group is kept
    assert_eq!(tree.connections.len(), 1);
    assert_eq!(tree.connections[0].b.id, 4);
    assert_eq!(tree.connections[0].b.position, pos(7, 7));
}

#[test]
fn arcs_only_on_one_orbit_of_one_group() {
    // three nodes of group 1 on the 16-slot orbit, one on another orbit,
    // one in another group
    let on_orbit = |id, idx| NodeData { orbit: Some(2), orbit_index: idx, ..node(id, 0, 0) };
    let mut a = on_orbit(1, 1);
    a.out = vec![1, 2, 3, 4];
    let b = on_orbit(2, 0);
    let c = on_orbit(3, 4);
    let other_orbit = NodeData { orbit: Some(1), ..node(4, 0, 0) };
    let other_group = NodeData { group: Some(2), orbit: Some(2), ..node(5, 0, 0) };
    let t = data(vec![a, b, c, other_orbit, other_group], vec![(false, vec![0, 1, 2, 3, 4])]);
    let tree = build(&t).unwrap();
    let paths: Vec<(u16, Path)> = tree.connections.iter().map(|c| (c.b.id, c.path)).collect();
    assert_eq!(
        paths,
        vec![
            // from 30 degrees to 0: a rotation of 30
            (2, Path::Arc { sweep: Sweep::CounterClockwise, radius: 162 }),
            // from 30 degrees to 90: a rotation of 300
            (3, Path::Arc { sweep: Sweep::Clockwise, radius: 162 }),
            (4, Path::Line {}),
            (5, Path::Line {}),
        ]
    );
}

#[test]
fn mixed_ascendancy_edges_are_dropped() {
    let mut a = node(1, 0, 0);
    a.out = vec![1];
    let mut b = asc_node(2, 0, 0, "Slayer", true);
    b.out = vec![0];
    let t = data(vec![a, b], vec![(false, vec![0, 1])]);
    let tree = build(&t).unwrap();
    assert!(tree.connections.is_empty());
}

fn sample() -> TreeData {
    let mut n1 = node(9, 30, 40);
    n1.out = vec![1, 2];
    let mut n2 = node(3, -30, 40);
    n2.out = vec![0];
    let n3 = NodeData { orbit: Some(1), orbit_index: 3, ..node(7, 1, 1) };
    let mut s = asc_node(12, 100, 100, "Assassin", true);
    s.out = vec![4];
    let n5 = asc_node(11, 150, 100, "Assassin", false);
    data(vec![n1, n2, n3, s, n5], vec![(false, vec![2, 0]), (false, vec![4, 3, 1])])
}

#[test]
fn building_twice_gives_identical_layouts() {
    let first = build(&sample()).unwrap();
    let second = build(&sample()).unwrap();
    assert_eq!(first.nodes, second.nodes);
    assert_eq!(first.connections, second.connections);
    assert_eq!(first.view_box, second.view_box);
}

#[test]
fn nodes_and_connections_are_sorted() {
    let tree = build(&sample()).unwrap();
    let ids: Vec<u16> = tree.nodes.iter().map(|n| n.id).collect();
    assert_eq!(ids, vec![3, 7, 9, 11, 12]);
    let ends: Vec<(u16, u16)> = tree.connections.iter().map(|c: &Connection| (c.a.id, c.b.id)).collect();
    assert_eq!(ends, vec![(3, 9), (9, 3), (9, 7), (12, 11)]);
}
