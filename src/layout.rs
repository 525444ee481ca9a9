//! Building the layout: place every node, move each ascendancy to its
//! anchor, draw the connections, resolve the ascendancy numbers and sort.
use crate::ascendancy::{
    asc_at, asc_index, is_alternate_spec, name_of, Ascendancy, ASCENDANCY_COUNT,
};
use crate::geometry::Coord;
use crate::graph::{
    alt_number, anchor, asc_of, ANCHOR_X, ANCHOR_Y, class_lookup_from, conns_from, conns_of, connection_path,
    filter_connection, filter_group, filter_members, filter_node, final_conn, final_node,
    find_name, group_members, kind_of, kinds_ok, kept, moved, node_at, node_kind,
    node_wf, placed, placed_upto, seen_in, start_in, start_node, start_position, targets_named,
    targets_ok, tree_wf, TreeData,
};
use crate::order::{is_sorted, lemma_sorted_unique, sort_canonical};
use crate::tree::{AscendancyInfo, Connection, Node, NodeKind, NodeRef, Tree, ViewBox};
use vstd::prelude::*;
use vstd::seq_lib::{to_multiset_contains, to_multiset_len};

verus! {

/// Why no layout could be built from the game data.
#[derive(Debug, Clone, Copy, PartialEq, Eq, Structural)]
pub enum LayoutError {
    /// No node is placed, so there is nothing to lay out.
    Empty,
    /// An ascendancy node names an ascendancy that this library does not know.
    UnknownAscendancy,
    /// An alternate ascendancy is missing from the data's list of alternates.
    MissingAlternateAscendancy,
}

/// The margin around the nodes in the view box.
pub const PADDING: i32 = 75;

pub open spec fn seen(t: TreeData, a: Ascendancy) -> bool {
    seen_in(t, placed(t), a)
}

/// The class and ascendancy numbers of an ordinary ascendancy; `(0, 0)` when
/// no class lists it.
pub open spec fn ordinary_info(t: TreeData, a: Ascendancy) -> AscendancyInfo {
    let found = class_lookup_from(t, name_of(a), 0);
    let class: int = match found {
        Some(p) => p.0,
        None => 0,
    };
    let number: int = match found {
        Some(p) => p.1,
        None => 0,
    };
    AscendancyInfo { class: class as u8, ascendancy: number as u8, start_node: start_node(t, a) }
}

/// The entries of an alternate ascendancy: one for each class.
pub open spec fn alt_entries_for(t: TreeData, a: Ascendancy) -> Seq<(Ascendancy, AscendancyInfo)> {
    Seq::new(
        t.classes@.len(),
        |c: int|
            (
                a,
                AscendancyInfo {
                    class: c as u8,
                    ascendancy: alt_number(t, a)->Some_0 as u8,
                    start_node: start_node(t, a),
                },
            ),
    )
}

pub open spec fn asc_entries_upto(t: TreeData, n: int) -> Seq<(Ascendancy, AscendancyInfo)>
    decreases n,
{
    if n <= 0 {
        Seq::empty()
    } else {
        let a = asc_at(n - 1);
        if seen(t, a) && !is_alternate_spec(a) {
            asc_entries_upto(t, n - 1).push((a, ordinary_info(t, a)))
        } else {
            asc_entries_upto(t, n - 1)
        }
    }
}

pub open spec fn alt_entries_upto(t: TreeData, n: int) -> Seq<(Ascendancy, AscendancyInfo)>
    decreases n,
{
    if n <= 0 {
        Seq::empty()
    } else {
        let a = asc_at(n - 1);
        if seen(t, a) && is_alternate_spec(a) {
            alt_entries_upto(t, n - 1) + alt_entries_for(t, a)
        } else {
            alt_entries_upto(t, n - 1)
        }
    }
}

pub open spec fn alt_missing_upto(t: TreeData, n: int) -> bool
    decreases n,
{
    n > 0 && (alt_missing_upto(t, n - 1) || (seen(t, asc_at(n - 1)) && is_alternate_spec(
        asc_at(n - 1),
    ) && alt_number(t, asc_at(n - 1)) is None))
}

/// Some alternate ascendancy in the layout is missing from the data's list.
pub open spec fn alt_missing(t: TreeData) -> bool {
    alt_missing_upto(t, 32)
}

/// The ordinary ascendancies present, in ascendancy order.
pub open spec fn asc_entries(t: TreeData) -> Seq<(Ascendancy, AscendancyInfo)> {
    asc_entries_upto(t, 32)
}

/// The alternate ascendancies present, each once for every class.
pub open spec fn alt_entries(t: TreeData) -> Seq<(Ascendancy, AscendancyInfo)> {
    alt_entries_upto(t, 32)
}

/// Every placed node has a known kind, and so has every node that a kept
/// edge leads to.
pub open spec fn names_ok(t: TreeData) -> bool {
    kinds_ok(t, placed(t)) && targets_ok(t, placed(t))
}

/// The error that building the layout of `t` ends with, if any.
pub open spec fn build_error(t: TreeData) -> Option<LayoutError> {
    if placed(t).len() == 0 {
        Some(LayoutError::Empty)
    } else if !names_ok(t) {
        Some(LayoutError::UnknownAscendancy)
    } else if alt_missing(t) {
        Some(LayoutError::MissingAlternateAscendancy)
    } else {
        None
    }
}

/// Every node of the layout, in the order of the game data.
pub open spec fn all_nodes(t: TreeData) -> Seq<Node> {
    placed(t).map_values(|i: usize| final_node(t, i))
}

/// Every connection of the layout, in the order of the game data.
pub open spec fn all_conns(t: TreeData) -> Seq<Connection> {
    conns_of(t, placed(t))
}

/// `vb` is the smallest box around the nodes, padded on each side.
pub open spec fn bounds(nodes: Seq<Node>, vb: ViewBox) -> bool {
    &&& forall|i: int|
        0 <= i < nodes.len() ==> vb.x + 75 <= (#[trigger] nodes[i]).position.x <= vb.x + vb.dx - 75
            && vb.y + 75 <= nodes[i].position.y <= vb.y + vb.dy - 75
    &&& exists|i: int| 0 <= i < nodes.len() && (#[trigger] nodes[i]).position.x == vb.x + 75
    &&& exists|i: int| 0 <= i < nodes.len() && (#[trigger] nodes[i]).position.y == vb.y + 75
    &&& exists|i: int|
        0 <= i < nodes.len() && (#[trigger] nodes[i]).position.x == vb.x + vb.dx - 75
    &&& exists|i: int|
        0 <= i < nodes.len() && (#[trigger] nodes[i]).position.y == vb.y + vb.dy - 75
}

/// `r` is the layout of `t`.
pub open spec fn layout_of(t: TreeData, r: Tree) -> bool {
    &&& r.nodes@.to_multiset() == all_nodes(t).to_multiset()
    &&& is_sorted(r.nodes@)
    &&& r.connections@.to_multiset() == all_conns(t).to_multiset()
    &&& is_sorted(r.connections@)
    &&& r.ascendancies@ == asc_entries(t)
    &&& r.alternate_ascendancies@ == alt_entries(t)
    &&& bounds(r.nodes@, r.view_box)
}

pub open spec fn placed_valid(t: TreeData, s: Seq<usize>) -> bool {
    forall|k: int| 0 <= k < s.len() ==> #[trigger] s[k] < t.nodes@.len()
}

pub open spec fn starts_match(t: TreeData, starts: Seq<Option<usize>>) -> bool {
    &&& starts.len() == 32
    &&& forall|a: int| 0 <= a < 32 ==> #[trigger] starts[a] == start_in(t, placed(t), asc_at(a))
}

proof fn lemma_asc_at(a: int)
    requires
        0 <= a < 32,
    ensures
        asc_index(asc_at(a)) == a,
{
}

proof fn lemma_start_in_member(t: TreeData, s: Seq<usize>, a: Ascendancy)
    ensures
        start_in(t, s, a) matches Some(i) ==> exists|k: int| 0 <= k < s.len() && s[k] == i,
    decreases s.len(),
{
    if s.len() > 0 {
        lemma_start_in_member(t, s.drop_last(), a);
        if let Some(i) = start_in(t, s.drop_last(), a) {
            let k = choose|k: int| 0 <= k < s.drop_last().len() && s.drop_last()[k] == i;
            assert(s[k] == i);
        }
        assert(s[s.len() - 1] == s.last());
    }
}

/// The members of the groups, in order, proxies and class starts left out.
fn placed_nodes(t: &TreeData) -> (r: Vec<usize>)
    requires
        tree_wf(*t),
    ensures
        r@ == placed(*t),
        placed_valid(*t, r@),
{
    let mut r: Vec<usize> = Vec::new();
    let mut g: usize = 0;
    while g < t.groups.len()
        invariant
            tree_wf(*t),
            g <= t.groups@.len(),
            r@ == placed_upto(*t, g as int),
            placed_valid(*t, r@),
        decreases t.groups@.len() - g,
    {
        let group = &t.groups[g];
        let ghost before = r@;
        if filter_group(group) {
            let mut m: usize = 0;
            while m < group.nodes.len()
                invariant
                    tree_wf(*t),
                    g < t.groups@.len(),
                    *group == t.groups@[g as int],
                    m <= group.nodes@.len(),
                    r@ == before + filter_members(*t, group.nodes@.take(m as int)),
                    placed_valid(*t, r@),
                decreases group.nodes@.len() - m,
            {
                let i = group.nodes[m];
                assert(i == t.groups@[g as int].nodes@[m as int]);
                assert(group.nodes@.take(m as int + 1).drop_last() =~= group.nodes@.take(m as int));
                if filter_node(&t.nodes[i]) {
                    r.push(i);
                }
                m = m + 1;
            }
            assert(group.nodes@.take(group.nodes@.len() as int) =~= group.nodes@);
        } else {
            assert(r@ =~= before + group_members(*t, g as int));
        }
        g = g + 1;
    }
    r
}

/// The start node and presence of each ascendancy, or `None` when a placed
/// node names an unknown ascendancy.
fn scan_ascendancies(t: &TreeData, p: &Vec<usize>) -> (r: Option<(Vec<Option<usize>>, Vec<bool>)>)
    requires
        tree_wf(*t),
        placed_valid(*t, p@),
    ensures
        match r {
            None => !kinds_ok(*t, p@),
            Some((starts, seen)) => {
                &&& kinds_ok(*t, p@)
                &&& starts@.len() == 32
                &&& seen@.len() == 32
                &&& forall|a: int|
                    0 <= a < 32 ==> #[trigger] starts@[a] == start_in(*t, p@, asc_at(a))
                        && seen@[a] == seen_in(*t, p@, asc_at(a))
            },
        },
{
    let mut starts: Vec<Option<usize>> = Vec::new();
    let mut seen: Vec<bool> = Vec::new();
    let mut a: usize = 0;
    while a < ASCENDANCY_COUNT
        invariant
            a <= 32,
            starts@.len() == a,
            seen@.len() == a,
            forall|x: int| 0 <= x < a ==> #[trigger] starts@[x] is None && !seen@[x],
        decreases 32 - a,
    {
        starts.push(None);
        seen.push(false);
        a = a + 1;
    }
    let mut k: usize = 0;
    assert(p@.take(0) =~= Seq::<usize>::empty());
    while k < p.len()
        invariant
            tree_wf(*t),
            placed_valid(*t, p@),
            k <= p@.len(),
            starts@.len() == 32,
            seen@.len() == 32,
            kinds_ok(*t, p@.take(k as int)),
            forall|a: int|
                0 <= a < 32 ==> #[trigger] starts@[a] == start_in(*t, p@.take(k as int), asc_at(a))
                    && seen@[a] == seen_in(*t, p@.take(k as int), asc_at(a)),
        decreases p@.len() - k,
    {
        let i = p[k];
        let n = &t.nodes[i];
        let ghost pre = p@.take(k as int);
        let ghost next = p@.take(k as int + 1);
        assert(next.drop_last() =~= pre);
        assert(next.last() == i);
        let ghost old_starts = starts@;
        let ghost old_seen = seen@;
        assert(*n == node_at(*t, i));
        let found = node_kind(n);
        if found.is_none() {
            assert(kind_of(node_at(*t, p@[k as int])) is None);
            return None;
        }
        let kind = found.unwrap();
        if let NodeKind::Ascendancy { ascendancy, .. } = kind {
            let idx = ascendancy.index();
            seen.set(idx, true);
            if n.is_ascendancy_start {
                starts.set(idx, Some(i));
            }
        }
        proof {
            assert forall|a: int| 0 <= a < 32 implies #[trigger] starts@[a] == start_in(
                *t,
                next,
                asc_at(a),
            ) && seen@[a] == seen_in(*t, next, asc_at(a)) by {
                lemma_asc_at(a);
                assert(old_starts[a] == start_in(*t, pre, asc_at(a)));
                assert(old_seen[a] == seen_in(*t, pre, asc_at(a)));
                assert(start_in(*t, next, asc_at(a)) == if asc_of(node_at(*t, i)) == Some(
                    asc_at(a),
                ) && node_at(*t, i).is_ascendancy_start {
                    Some(i)
                } else {
                    start_in(*t, pre, asc_at(a))
                });
                assert(seen_in(*t, next, asc_at(a)) == (asc_of(node_at(*t, i)) == Some(asc_at(a))
                    || seen_in(*t, pre, asc_at(a))));
            }
            assert(forall|q: int| 0 <= q < k ==> next[q] == pre[q]);
            assert(kinds_ok(*t, next));
        }
        k = k + 1;
        assert(p@.take(k as int) == next);
    }
    assert(p@.take(p@.len() as int) =~= p@);
    Some((starts, seen))
}

/// How far the nodes of ascendancy `a` move.
fn ascendancy_shift(t: &TreeData, starts: &Vec<Option<usize>>, a: Ascendancy) -> (r: (i32, i32))
    requires
        tree_wf(*t),
        placed_valid(*t, placed(*t)),
        starts_match(*t, starts@),
    ensures
        r.0 == anchor(a).x - start_position(*t, a).x,
        r.1 == anchor(a).y - start_position(*t, a).y,
        -0x1000_0000 - 7000 <= r.0 <= 0x1000_0000 + 7000,
        -0x1000_0000 - 7700 <= r.1 <= 0x1000_0000 + 7700,
{
    let idx = a.index();
    let (sx, sy) = match starts[idx] {
        Some(s) => {
            proof {
                lemma_start_in_member(*t, placed(*t), a);
            }
            (t.nodes[s].position.x, t.nodes[s].position.y)
        },
        None => (0, 0),
    };
    let ax: i32 = if a.is_alternate() {
        -ANCHOR_X
    } else {
        ANCHOR_X
    };
    (ax - sx, ANCHOR_Y - sy)
}

/// Places every node of `p` and draws its connections, or returns `None`
/// when a kept edge leads to a node of unknown ascendancy.
fn place_all(t: &TreeData, p: &Vec<usize>, starts: &Vec<Option<usize>>) -> (r: Option<
    (Vec<Node>, Vec<Connection>),
>)
    requires
        tree_wf(*t),
        p@ == placed(*t),
        placed_valid(*t, p@),
        kinds_ok(*t, p@),
        starts_match(*t, starts@),
    ensures
        match r {
            None => !targets_ok(*t, p@),
            Some((nodes, conns)) => {
                &&& targets_ok(*t, p@)
                &&& nodes@ == p@.map_values(|i: usize| final_node(*t, i))
                &&& conns@ == conns_of(*t, p@)
            },
        },
{
    let mut nodes: Vec<Node> = Vec::new();
    let mut conns: Vec<Connection> = Vec::new();
    let mut k: usize = 0;
    assert(p@.take(0) =~= Seq::<usize>::empty());
    assert(p@.take(0).map_values(|i: usize| final_node(*t, i)) =~= nodes@);
    while k < p.len()
        invariant
            tree_wf(*t),
            p@ == placed(*t),
            placed_valid(*t, p@),
            kinds_ok(*t, p@),
            starts_match(*t, starts@),
            k <= p@.len(),
            nodes@ == p@.take(k as int).map_values(|i: usize| final_node(*t, i)),
            conns@ == conns_of(*t, p@.take(k as int)),
            targets_ok(*t, p@.take(k as int)),
        decreases p@.len() - k,
    {
        let i = p[k];
        let n = &t.nodes[i];
        assert(node_wf(*t, *n));
        assert(kind_of(node_at(*t, p@[k as int])) is Some);
        let kind = node_kind(n).unwrap();
        let (dx, dy) = match kind {
            NodeKind::Ascendancy { ascendancy, .. } => ascendancy_shift(t, starts, ascendancy),
            _ => (0, 0),
        };
        let position = Coord { x: n.position.x + dx, y: n.position.y + dy };
        assert(position == moved(*t, *n, n.position));
        let ghost pre = p@.take(k as int);
        let ghost next = p@.take(k as int + 1);
        assert(next.drop_last() =~= pre);
        nodes.push(Node { id: n.id, position, kind });
        assert(nodes@ =~= next.map_values(|i: usize| final_node(*t, i)));
        let mut m: usize = 0;
        assert(n.out@.take(0) =~= Seq::<usize>::empty());
        while m < n.out.len()
            invariant
                tree_wf(*t),
                node_wf(*t, *n),
                kind == kind_of(*n)->Some_0,
                kind_of(*n) is Some,
                position == moved(*t, *n, n.position),
                forall|c: Coord|
                    -0x1000_0000 <= c.x <= 0x1000_0000 && -0x1000_0000 <= c.y <= 0x1000_0000
                        ==> (#[trigger] moved(*t, *n, c)) == (Coord { x: (c.x + dx) as i32, y: (c.y + dy) as i32 }),
                -0x1000_0000 - 7000 <= dx <= 0x1000_0000 + 7000,
                -0x1000_0000 - 7700 <= dy <= 0x1000_0000 + 7700,
                m <= n.out@.len(),
                k < p@.len(),
                p@ == placed(*t),
                *n == node_at(*t, p@[k as int]),
                pre == p@.take(k as int),
                conns@ == conns_of(*t, pre) + conns_from(*t, *n, n.out@.take(m as int)),
                targets_named(*t, *n, n.out@.take(m as int)),
            decreases n.out@.len() - m,
        {
            let j = n.out[m];
            let b = &t.nodes[j];
            assert(node_wf(*t, *b));
            assert(n.out@.take(m as int + 1).drop_last() =~= n.out@.take(m as int));
            if filter_connection(n, b) {
                match node_kind(b) {
                    None => {
                        assert(kind_of(node_at(*t, n.out@[m as int])) is None);
                        assert(!targets_named(*t, node_at(*t, p@[k as int]), node_at(*t, p@[k as int]).out@));
                        assert(!targets_ok(*t, p@));
                        return None;
                    },
                    Some(bk) => {
                        let path = connection_path(t, n, b);
                        let end = Coord { x: b.position.x + dx, y: b.position.y + dy };
                        assert(end == moved(*t, *n, b.position));
                        let c = Connection {
                            a: NodeRef { id: n.id, position, kind },
                            b: NodeRef { id: b.id, position: end, kind: bk },
                            path,
                        };
                        assert(c == final_conn(*t, *n, *b));
                        conns.push(c);
                    },
                }
            }
            m = m + 1;
            assert(targets_named(*t, *n, n.out@.take(m as int)));
        }
        assert(n.out@.take(n.out@.len() as int) =~= n.out@);
        assert(forall|q: int| 0 <= q < k ==> next[q] == pre[q]);
        assert(targets_named(*t, node_at(*t, next[k as int]), node_at(*t, next[k as int]).out@));
        assert(targets_ok(*t, next));
        k = k + 1;
    }
    assert(p@.take(p@.len() as int) =~= p@);
    Some((nodes, conns))
}

/// The first class that lists an ascendancy named `name`, and the
/// ascendancy's number in it, counted from one.
fn class_lookup(t: &TreeData, name: &String) -> (r: Option<(usize, usize)>)
    ensures
        match r {
            Some((c, k)) => class_lookup_from(*t, name@, 0) == Some((c as int, k as int)),
            None => class_lookup_from(*t, name@, 0) is None,
        },
{
    let mut c: usize = 0;
    while c < t.classes.len()
        invariant
            c <= t.classes@.len(),
            class_lookup_from(*t, name@, 0) == class_lookup_from(*t, name@, c as int),
        decreases t.classes@.len() - c,
    {
        match find_name(&t.classes[c].ascendancies, name) {
            Some(k) => {
                return Some((c, k + 1));
            },
            None => {},
        }
        c = c + 1;
    }
    None
}

proof fn lemma_alt_missing_grows(t: TreeData, n: int)
    requires
        0 <= n <= 32,
        alt_missing_upto(t, n),
    ensures
        alt_missing(t),
    decreases 32 - n,
{
    if n < 32 {
        assert(alt_missing_upto(t, n + 1));
        lemma_alt_missing_grows(t, n + 1);
    }
}

/// The class and ascendancy numbers of every ascendancy present, or an
/// error when an alternate ascendancy is missing from the data's list.
fn resolve_ascendancies(t: &TreeData, starts: &Vec<Option<usize>>, seen_flags: &Vec<bool>) -> (r:
    Result<(Vec<(Ascendancy, AscendancyInfo)>, Vec<(Ascendancy, AscendancyInfo)>), LayoutError>)
    requires
        tree_wf(*t),
        placed_valid(*t, placed(*t)),
        starts_match(*t, starts@),
        seen_flags@.len() == 32,
        forall|a: int| 0 <= a < 32 ==> #[trigger] seen_flags@[a] == seen(*t, asc_at(a)),
    ensures
        match r {
            Err(e) => e == LayoutError::MissingAlternateAscendancy && alt_missing(*t),
            Ok((ordinary, alternate)) => {
                &&& !alt_missing(*t)
                &&& ordinary@ == asc_entries(*t)
                &&& alternate@ == alt_entries(*t)
            },
        },
{
    let mut ordinary: Vec<(Ascendancy, AscendancyInfo)> = Vec::new();
    let mut alternate: Vec<(Ascendancy, AscendancyInfo)> = Vec::new();
    let mut a: usize = 0;
    while a < ASCENDANCY_COUNT
        invariant
            tree_wf(*t),
            placed_valid(*t, placed(*t)),
            starts_match(*t, starts@),
            seen_flags@.len() == 32,
            forall|a: int| 0 <= a < 32 ==> #[trigger] seen_flags@[a] == seen(*t, asc_at(a)),
            a <= 32,
            !alt_missing_upto(*t, a as int),
            ordinary@ == asc_entries_upto(*t, a as int),
            alternate@ == alt_entries_upto(*t, a as int),
        decreases 32 - a,
    {
        if seen_flags[a] {
            let asc = Ascendancy::from_index(a);
            let start: u16 = match starts[a] {
                Some(s) => {
                    proof {
                        lemma_start_in_member(*t, placed(*t), asc);
                    }
                    t.nodes[s].id
                },
                None => 0,
            };
            assert(start == start_node(*t, asc));
            let name = asc.as_str().to_owned();
            if asc.is_alternate() {
                match find_name(&t.alternate_ascendancies, &name) {
                    None => {
                        assert(alt_missing_upto(*t, a as int + 1));
                        proof {
                            lemma_alt_missing_grows(*t, a as int + 1);
                        }
                        return Err(LayoutError::MissingAlternateAscendancy);
                    },
                    Some(k) => {
                        let number = #[verifier::truncate] ((k + 1) as u8);
                        let ghost entries = alt_entries_for(*t, asc);
                        let mut c: usize = 0;
                        assert(entries.take(0) =~= Seq::<(Ascendancy, AscendancyInfo)>::empty());
                        while c < t.classes.len()
                            invariant
                                c <= t.classes@.len(),
                                entries == alt_entries_for(*t, asc),
                                entries.len() == t.classes@.len(),
                                number == alt_number(*t, asc)->Some_0 as u8,
                                start == start_node(*t, asc),
                                alternate@ == alt_entries_upto(*t, a as int) + entries.take(c as int),
                            decreases t.classes@.len() - c,
                        {
                            alternate.push(
                                (asc, AscendancyInfo { class: #[verifier::truncate] (c as u8), ascendancy: number, start_node: start }),
                            );
                            c = c + 1;
                            assert(alternate@ =~= alt_entries_upto(*t, a as int) + entries.take(c as int));
                        }
                        assert(entries.take(entries.len() as int) =~= entries);
                    },
                }
            } else {
                let (class, number) = match class_lookup(t, &name) {
                    Some(found) => found,
                    None => (0, 0),
                };
                ordinary.push(
                    (
                        asc,
                        AscendancyInfo {
                            class: #[verifier::truncate] (class as u8),
                            ascendancy: #[verifier::truncate] (number as u8),
                            start_node: start,
                        },
                    ),
                );
            }
        }
        a = a + 1;
    }
    Ok((ordinary, alternate))
}

/// The bound on the coordinates of placed nodes, once ascendancies moved.
pub open spec fn placed_bound() -> int {
    0x2000_0000int + 7700
}

pub open spec fn in_bounds(n: Node) -> bool {
    -placed_bound() <= n.position.x <= placed_bound() && -placed_bound() <= n.position.y
        <= placed_bound()
}

proof fn lemma_final_bounded(t: TreeData, i: usize)
    requires
        tree_wf(t),
        placed_valid(t, placed(t)),
        i < t.nodes@.len(),
    ensures
        in_bounds(final_node(t, i)),
{
    let n = node_at(t, i);
    assert(node_wf(t, n));
    if let Some(a) = asc_of(n) {
        lemma_start_in_member(t, placed(t), a);
        if let Some(s) = start_in(t, placed(t), a) {
            assert(node_wf(t, node_at(t, s)));
        }
    }
}

/// The smallest box around the nodes, padded on each side.
fn bounding_box(nodes: &Vec<Node>) -> (r: ViewBox)
    requires
        nodes@.len() > 0,
        forall|i: int| 0 <= i < nodes@.len() ==> in_bounds(#[trigger] nodes@[i]),
    ensures
        bounds(nodes@, r),
{
    let mut min_x = nodes[0].position.x;
    let mut max_x = nodes[0].position.x;
    let mut min_y = nodes[0].position.y;
    let mut max_y = nodes[0].position.y;
    let ghost mut w = (0int, 0int, 0int, 0int);
    let mut i: usize = 1;
    while i < nodes.len()
        invariant
            1 <= i <= nodes@.len(),
            forall|j: int| 0 <= j < nodes@.len() ==> in_bounds(#[trigger] nodes@[j]),
            forall|j: int|
                0 <= j < i ==> min_x <= (#[trigger] nodes@[j]).position.x <= max_x && min_y
                    <= nodes@[j].position.y <= max_y,
            0 <= w.0 < i && nodes@[w.0].position.x == min_x,
            0 <= w.1 < i && nodes@[w.1].position.x == max_x,
            0 <= w.2 < i && nodes@[w.2].position.y == min_y,
            0 <= w.3 < i && nodes@[w.3].position.y == max_y,
        decreases nodes@.len() - i,
    {
        let p = nodes[i].position;
        if p.x < min_x {
            min_x = p.x;
            proof {
                w.0 = i as int;
            }
        }
        if p.x > max_x {
            max_x = p.x;
            proof {
                w.1 = i as int;
            }
        }
        if p.y < min_y {
            min_y = p.y;
            proof {
                w.2 = i as int;
            }
        }
        if p.y > max_y {
            max_y = p.y;
            proof {
                w.3 = i as int;
            }
        }
        i = i + 1;
    }
    assert(in_bounds(nodes@[w.0]) && in_bounds(nodes@[w.1]) && in_bounds(nodes@[w.2]) && in_bounds(
        nodes@[w.3],
    ));
    let r = ViewBox {
        x: min_x - PADDING,
        y: min_y - PADDING,
        dx: (max_x - min_x + 2 * PADDING) as u32,
        dy: (max_y - min_y + 2 * PADDING) as u32,
    };
    assert(nodes@[w.0].position.x == r.x + 75);
    assert(nodes@[w.1].position.x == r.x + r.dx - 75);
    assert(nodes@[w.2].position.y == r.y + 75);
    assert(nodes@[w.3].position.y == r.y + r.dy - 75);
    r
}

/// Builds the layout of the game data: every placed node at its final
/// position, every kept connection, the ascendancy directory and the view
/// box, nodes and connections in canonical order.
pub fn build(t: &TreeData) -> (r: Result<Tree, LayoutError>)
    requires
        tree_wf(*t),
    ensures
        match build_error(*t) {
            Some(e) => r == Err::<Tree, LayoutError>(e),
            None => r is Ok && layout_of(*t, r->Ok_0),
        },
{
    let p = placed_nodes(t);
    if p.len() == 0 {
        return Err(LayoutError::Empty);
    }
    let (starts, seen_flags) = match scan_ascendancies(t, &p) {
        Some(found) => found,
        None => {
            return Err(LayoutError::UnknownAscendancy);
        },
    };
    let (nodes, conns) = match place_all(t, &p, &starts) {
        Some(placed) => placed,
        None => {
            return Err(LayoutError::UnknownAscendancy);
        },
    };
    assert forall|a: int| 0 <= a < 32 implies #[trigger] seen_flags@[a] == seen(*t, asc_at(a)) by {
        assert(starts@[a] == start_in(*t, p@, asc_at(a)));
    }
    let (ordinary, alternate) = match resolve_ascendancies(t, &starts, &seen_flags) {
        Ok(found) => found,
        Err(e) => {
            return Err(e);
        },
    };
    let nodes = sort_canonical(&nodes);
    let connections = sort_canonical(&conns);
    proof {
        let all = all_nodes(*t);
        assert(all =~= p@.map_values(|i: usize| final_node(*t, i)));
        to_multiset_len(nodes@);
        to_multiset_len(all);
        assert forall|i: int| 0 <= i < nodes@.len() implies in_bounds(#[trigger] nodes@[i]) by {
            to_multiset_contains(nodes@, nodes@[i]);
            to_multiset_contains(all, nodes@[i]);
            let k = choose|k: int| 0 <= k < all.len() && all[k] == nodes@[i];
            lemma_final_bounded(*t, p@[k]);
        }
    }
    let view_box = bounding_box(&nodes);
    Ok(
        Tree {
            view_box,
            nodes,
            connections,
            ascendancies: ordinary,
            alternate_ascendancies: alternate,
        },
    )
}

proof fn lemma_start_in_is_start(t: TreeData, s: Seq<usize>, a: Ascendancy)
    ensures
        start_in(t, s, a) matches Some(i) ==> asc_of(node_at(t, i)) == Some(a) && node_at(
            t,
            i,
        ).is_ascendancy_start,
    decreases s.len(),
{
    if s.len() > 0 {
        lemma_start_in_is_start(t, s.drop_last(), a);
    }
}

/// Every node of an ascendancy moves by one offset, from the ascendancy's
/// start node to its anchor, so the start node itself lands on the anchor.
pub proof fn lemma_ascendancy_relocation(t: TreeData, a: Ascendancy, i: usize)
    requires
        tree_wf(t),
        i < t.nodes@.len(),
        asc_of(node_at(t, i)) == Some(a),
    ensures
        final_node(t, i).position.x == node_at(t, i).position.x + anchor(a).x - start_position(
            t,
            a,
        ).x,
        final_node(t, i).position.y == node_at(t, i).position.y + anchor(a).y - start_position(
            t,
            a,
        ).y,
        start_in(t, placed(t), a) == Some(i) ==> final_node(t, i).position == anchor(a),
{
    let p = placed(t);
    assert(node_wf(t, node_at(t, i)));
    lemma_start_in_member(t, p, a);
    lemma_start_in_is_start(t, p, a);
    if let Some(s) = start_in(t, p, a) {
        let k = choose|k: int| 0 <= k < p.len() && p[k] == s;
        lemma_placed_valid(t);
        assert(p[k] < t.nodes@.len());
        assert(node_wf(t, node_at(t, s)));
    }
}

proof fn lemma_filter_members_valid(t: TreeData, g: int, m: Seq<usize>)
    requires
        tree_wf(t),
        0 <= g < t.groups@.len(),
        forall|k: int| 0 <= k < m.len() ==> #[trigger] m[k] < t.nodes@.len(),
    ensures
        placed_valid(t, filter_members(t, m)),
    decreases m.len(),
{
    if m.len() > 0 {
        lemma_filter_members_valid(t, g, m.drop_last());
    }
}

proof fn lemma_placed_upto_valid(t: TreeData, g: int)
    requires
        tree_wf(t),
        0 <= g <= t.groups@.len(),
    ensures
        placed_valid(t, placed_upto(t, g)),
    decreases g,
{
    if g > 0 {
        lemma_placed_upto_valid(t, g - 1);
        if !t.groups@[g - 1].is_proxy {
            let m = t.groups@[g - 1].nodes@;
            assert forall|k: int| 0 <= k < m.len() implies #[trigger] m[k] < t.nodes@.len() by {
                assert(t.groups@[g - 1].nodes@[k] < t.nodes@.len());
            }
            lemma_filter_members_valid(t, g - 1, m);
        }
        let a = placed_upto(t, g - 1);
        let b = group_members(t, g - 1);
        assert forall|k: int| 0 <= k < a.len() + b.len() implies #[trigger] (a + b)[k]
            < t.nodes@.len() by {
            if k < a.len() {
                assert((a + b)[k] == a[k]);
            } else {
                assert((a + b)[k] == b[k - a.len()]);
            }
        }
    }
}

/// Every placed index points at a node.
pub proof fn lemma_placed_valid(t: TreeData)
    requires
        tree_wf(t),
    ensures
        placed_valid(t, placed(t)),
{
    lemma_placed_upto_valid(t, t.groups@.len() as int);
}

/// Two layouts of the same game data are identical: the same nodes and
/// connections in the same order, the same view box and the same
/// ascendancy directory.
pub proof fn lemma_build_deterministic(t: TreeData, r1: Tree, r2: Tree)
    requires
        layout_of(t, r1),
        layout_of(t, r2),
    ensures
        r1.nodes@ == r2.nodes@,
        r1.connections@ == r2.connections@,
        r1.view_box == r2.view_box,
        r1.ascendancies@ == r2.ascendancies@,
        r1.alternate_ascendancies@ == r2.alternate_ascendancies@,
{
    lemma_sorted_unique(r1.nodes@, r2.nodes@);
    lemma_sorted_unique(r1.connections@, r2.connections@);
    let n = r1.nodes@;
    let (v1, v2) = (r1.view_box, r2.view_box);
    let a1 = choose|i: int| 0 <= i < n.len() && (#[trigger] n[i]).position.x == v1.x + 75;
    let a2 = choose|i: int| 0 <= i < n.len() && (#[trigger] n[i]).position.x == v2.x + 75;
    let b1 = choose|i: int| 0 <= i < n.len() && (#[trigger] n[i]).position.y == v1.y + 75;
    let b2 = choose|i: int| 0 <= i < n.len() && (#[trigger] n[i]).position.y == v2.y + 75;
    let c1 = choose|i: int| 0 <= i < n.len() && (#[trigger] n[i]).position.x == v1.x + v1.dx - 75;
    let c2 = choose|i: int| 0 <= i < n.len() && (#[trigger] n[i]).position.x == v2.x + v2.dx - 75;
    let d1 = choose|i: int| 0 <= i < n.len() && (#[trigger] n[i]).position.y == v1.y + v1.dy - 75;
    let d2 = choose|i: int| 0 <= i < n.len() && (#[trigger] n[i]).position.y == v2.y + v2.dy - 75;
    assert(n[a1] == n[a1] && n[a2] == n[a2] && n[b1] == n[b1] && n[b2] == n[b2]);
    assert(n[c1] == n[c1] && n[c2] == n[c2] && n[d1] == n[d1] && n[d2] == n[d2]);
}

} // verus!
