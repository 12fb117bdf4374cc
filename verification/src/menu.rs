//! Tray menu protocol: flattened item table, structural validation, and
//! the tree-to-table build step.
//!
//! A caller describes a menu as a tree of `MenuItem`s.  The protocol
//! publishes it as a flat table keyed by node id: a synthetic root with
//! id 0 whose children are the top-level items, interior nodes listing
//! the ids of their children, leaves carrying the caller-assigned
//! command id.  Ids are assigned sequentially in depth-first preorder
//! starting at 1.  A replacement table is accepted only if every
//! interior node's children are present and id 0 is an interior node.

use vstd::prelude::*;

verus! {

/// Caller-facing menu description: a leaf with a command id, or a
/// titled submenu.
pub enum MenuItem {
    Item { title: String, id: u16 },
    SubMenu { title: String, items: Vec<MenuItem> },
}

/// Protocol-level flattened node: a leaf (command id, label) or an
/// interior node (label, ids of its children).
pub enum Item {
    Item(u16, String),
    Children(String, Vec<i32>),
}

/// Mathematical image of an `Item`.
pub enum FlatNode {
    Leaf { id: u16, label: Seq<char> },
    Branch { label: Seq<char>, children: Seq<i32> },
}

impl View for Item {
    type V = FlatNode;

    open spec fn view(&self) -> FlatNode {
        match self {
            Item::Item(id, title) => FlatNode::Leaf { id: *id, label: title@ },
            Item::Children(title, children) => FlatNode::Branch {
                label: title@,
                children: children@,
            },
        }
    }
}

/// Why a menu replacement was rejected.
#[derive(Clone, Copy, Debug, PartialEq, Eq, Structural)]
pub enum MenuError {
    /// An interior node references a child id absent from the table.
    MissingChild,
    /// Id 0 is absent or is not an interior node.
    InvalidRoot,
}

/// Every id in `children` is a key of `m`.
pub open spec fn children_present(m: Map<int, FlatNode>, children: Seq<i32>) -> bool {
    forall|j: int| 0 <= j < children.len() ==> m.contains_key(#[trigger] children[j] as int)
}

/// Every interior node's children exist in the table.
pub open spec fn table_closed(m: Map<int, FlatNode>) -> bool {
    forall|k: int|
        m.contains_key(k) ==> ((#[trigger] m[k]) matches FlatNode::Branch { children, .. }
            ==> children_present(m, children))
}

/// Id 0 exists and is an interior node.
pub open spec fn table_has_root(m: Map<int, FlatNode>) -> bool {
    m.contains_key(0) && m[0] is Branch
}

/// A table the protocol will accept.
pub open spec fn table_valid(m: Map<int, FlatNode>) -> bool {
    table_closed(m) && table_has_root(m)
}

/// Flat id-to-node table with unique ids, the wire form of one menu.
pub struct ItemTable {
    entries: Vec<(i32, Item)>,
}

/// The association described by `s`, later entries taking precedence.
spec fn assoc_map(s: Seq<(i32, Item)>) -> Map<int, FlatNode>
    decreases s.len(),
{
    if s.len() == 0 {
        Map::empty()
    } else {
        assoc_map(s.drop_last()).insert(s.last().0 as int, s.last().1@)
    }
}

/// Pairwise-distinct keys.
spec fn keys_unique(s: Seq<(i32, Item)>) -> bool {
    forall|i: int, j: int| 0 <= i < j < s.len() ==> (#[trigger] s[i]).0 != (#[trigger] s[j]).0
}

proof fn lemma_assoc_contains(s: Seq<(i32, Item)>, k: int)
    ensures
        assoc_map(s).contains_key(k) <==> exists|i: int|
            0 <= i < s.len() && (#[trigger] s[i]).0 as int == k,
    decreases s.len(),
{
    if s.len() > 0 {
        lemma_assoc_contains(s.drop_last(), k);
        if s.last().0 as int == k {
            assert(s[s.len() - 1].0 as int == k);
        } else if assoc_map(s).contains_key(k) {
            let i = choose|i: int|
                0 <= i < s.drop_last().len() && (#[trigger] s.drop_last()[i]).0 as int == k;
            assert(s[i].0 as int == k);
        } else {
            assert forall|i: int| 0 <= i < s.len() && (#[trigger] s[i]).0 as int == k implies false by {
                if i < s.len() - 1 {
                    assert(s.drop_last()[i].0 as int == k);
                }
            }
        }
    }
}

proof fn lemma_assoc_get(s: Seq<(i32, Item)>, i: int)
    requires
        keys_unique(s),
        0 <= i < s.len(),
    ensures
        assoc_map(s).contains_key(s[i].0 as int),
        assoc_map(s)[s[i].0 as int] == s[i].1@,
    decreases s.len(),
{
    lemma_assoc_contains(s, s[i].0 as int);
    if i < s.len() - 1 {
        assert(s.drop_last()[i] == s[i]);
        lemma_assoc_get(s.drop_last(), i);
        assert(s.last().0 != s[i].0);
    }
}

impl ItemTable {
    /// Ids are pairwise distinct.
    pub closed spec fn wf(&self) -> bool {
        keys_unique(self.entries@)
    }

    /// The table as a map from id to node.
    pub closed spec fn as_map(&self) -> Map<int, FlatNode> {
        assoc_map(self.entries@)
    }

    /// How many nodes the table holds.
    pub closed spec fn spec_len(&self) -> nat {
        self.entries@.len()
    }

    /// An empty table.
    pub fn new() -> (t: Self)
        ensures
            t.wf(),
            t.as_map() == Map::<int, FlatNode>::empty(),
            t.spec_len() == 0,
    {
        ItemTable { entries: Vec::new() }
    }

    /// Adds a node under a fresh id.
    pub fn insert(&mut self, key: i32, item: Item)
        requires
            old(self).wf(),
            !old(self).as_map().contains_key(key as int),
        ensures
            final(self).wf(),
            final(self).as_map() == old(self).as_map().insert(key as int, item@),
            final(self).spec_len() == old(self).spec_len() + 1,
    {
        proof {
            lemma_assoc_contains(self.entries@, key as int);
        }
        self.entries.push((key, item));
        proof {
            assert(self.entries@.drop_last() =~= old(self).entries@);
        }
    }

    /// Whether `key` names a node.
    pub fn contains_key(&self, key: i32) -> (r: bool)
        requires
            self.wf(),
        ensures
            r == self.as_map().contains_key(key as int),
    {
        let mut i: usize = 0;
        while i < self.entries.len()
            invariant
                i <= self.entries@.len(),
                forall|j: int| 0 <= j < i ==> (#[trigger] self.entries@[j]).0 != key,
            decreases self.entries@.len() - i,
        {
            if self.entries[i].0 == key {
                proof {
                    lemma_assoc_contains(self.entries@, key as int);
                }
                return true;
            }
            i = i + 1;
        }
        proof {
            lemma_assoc_contains(self.entries@, key as int);
        }
        false
    }

    /// The node under `key`, if any.
    pub fn get(&self, key: i32) -> (r: Option<&Item>)
        requires
            self.wf(),
        ensures
            match r {
                Some(item) => self.as_map().contains_key(key as int)
                    && item@ == self.as_map()[key as int],
                None => !self.as_map().contains_key(key as int),
            },
    {
        let mut i: usize = 0;
        while i < self.entries.len()
            invariant
                self.wf(),
                i <= self.entries@.len(),
                forall|j: int| 0 <= j < i ==> (#[trigger] self.entries@[j]).0 != key,
            decreases self.entries@.len() - i,
        {
            if self.entries[i].0 == key {
                proof {
                    lemma_assoc_get(self.entries@, i as int);
                }
                return Some(&self.entries[i].1);
            }
            i = i + 1;
        }
        proof {
            lemma_assoc_contains(self.entries@, key as int);
        }
        None
    }

    /// Checks the structural protocol invariants: every interior node's
    /// children present, and id 0 an interior node.  Reports the first
    /// broken rule, in that order.
    pub fn validate(&self) -> (r: Result<(), MenuError>)
        requires
            self.wf(),
        ensures
            r is Ok <==> table_valid(self.as_map()),
            r == Err::<(), MenuError>(MenuError::MissingChild) <==> !table_closed(self.as_map()),
            r == Err::<(), MenuError>(MenuError::InvalidRoot) <==> table_closed(self.as_map())
                && !table_has_root(self.as_map()),
    {
        let ghost m = self.as_map();
        let mut i: usize = 0;
        while i < self.entries.len()
            invariant
                self.wf(),
                m == self.as_map(),
                i <= self.entries@.len(),
                forall|j: int|
                    0 <= j < i ==> ((#[trigger] self.entries@[j]).1 matches Item::Children(
                        _,
                        children,
                    ) ==> children_present(m, children@)),
            decreases self.entries@.len() - i,
        {
            match &self.entries[i].1 {
                Item::Children(_, children) => {
                    let mut c: usize = 0;
                    while c < children.len()
                        invariant
                            self.wf(),
                            m == self.as_map(),
                            i < self.entries@.len(),
                            self.entries@[i as int].1 matches Item::Children(_, ch) && ch@
                                == children@,
                            c <= children@.len(),
                            forall|j: int|
                                0 <= j < c ==> m.contains_key(#[trigger] children@[j] as int),
                        decreases children@.len() - c,
                    {
                        if !self.contains_key(children[c]) {
                            proof {
                                lemma_assoc_get(self.entries@, i as int);
                                assert(!children_present(m, children@));
                            }
                            return Err(MenuError::MissingChild);
                        }
                        c = c + 1;
                    }
                },
                Item::Item(..) => {},
            }
            i = i + 1;
        }
        proof {
            assert forall|k: int| m.contains_key(k) implies ((#[trigger] m[k]) matches FlatNode::Branch {
                children,
                ..
            } ==> children_present(m, children)) by {
                lemma_assoc_contains(self.entries@, k);
                let j = choose|j: int|
                    0 <= j < self.entries@.len() && (#[trigger] self.entries@[j]).0 as int == k;
                lemma_assoc_get(self.entries@, j);
            }
        }
        match self.get(0) {
            Some(Item::Children(..)) => Ok(()),
            _ => Err(MenuError::InvalidRoot),
        }
    }
}

/// A table holding nothing but a bare root: id 0 is an interior node
/// with an empty label and no children, and no other id exists.
pub open spec fn is_empty_root_map(m: Map<int, FlatNode>) -> bool {
    &&& m.dom() =~= set![0int]
    &&& m[0] matches FlatNode::Branch { label, children } && label.len() == 0 && children.len()
        == 0
}

/// Builds the bare-root table, the encoding of "no menu".
pub fn empty_root_table() -> (t: ItemTable)
    ensures
        t.wf(),
        is_empty_root_map(t.as_map()),
        table_valid(t.as_map()),
        table_ordered(t.as_map()),
{
    let mut t = ItemTable::new();
    t.insert(0, Item::Children(String::new(), Vec::new()));
    t
}

/// How many nodes a subtree contributes to the flat table.
pub open spec fn node_count(m: MenuItem) -> nat
    decreases m,
{
    match m {
        MenuItem::Item { .. } => 1,
        MenuItem::SubMenu { items, .. } => 1 + node_count_seq(items@),
    }
}

/// Total node count of a forest.
pub open spec fn node_count_seq(s: Seq<MenuItem>) -> nat
    decreases s,
{
    if s.len() == 0 {
        0
    } else {
        node_count(s[0]) + node_count_seq(s.drop_first())
    }
}

/// The table entries a subtree occupies when its preorder numbering
/// starts at `start`.
pub open spec fn flat_map(m: MenuItem, start: int) -> Map<int, FlatNode>
    decreases m,
{
    match m {
        MenuItem::Item { title, id } => Map::empty().insert(
            start,
            FlatNode::Leaf { id, label: title@ },
        ),
        MenuItem::SubMenu { title, items } => flat_map_seq(items@, start + 1).insert(
            start,
            FlatNode::Branch { label: title@, children: child_ids(items@, start + 1) },
        ),
    }
}

/// The table entries of a forest numbered from `start`.
pub open spec fn flat_map_seq(s: Seq<MenuItem>, start: int) -> Map<int, FlatNode>
    decreases s,
{
    if s.len() == 0 {
        Map::empty()
    } else {
        flat_map(s[0], start).union_prefer_right(
            flat_map_seq(s.drop_first(), start + node_count(s[0])),
        )
    }
}

/// The ids the roots of a forest receive when numbered from `start`.
pub open spec fn child_ids(s: Seq<MenuItem>, start: int) -> Seq<i32>
    decreases s,
{
    if s.len() == 0 {
        Seq::empty()
    } else {
        seq![start as i32] + child_ids(s.drop_first(), start + node_count(s[0]))
    }
}

/// Every subtree holds at least its own node.
proof fn lemma_node_count_pos(m: MenuItem)
    ensures
        node_count(m) >= 1,
{
}

/// A forest holds at least one node per root.
proof fn lemma_node_count_seq_ge_len(s: Seq<MenuItem>)
    ensures
        node_count_seq(s) >= s.len(),
    decreases s,
{
    if s.len() > 0 {
        lemma_node_count_pos(s[0]);
        lemma_node_count_seq_ge_len(s.drop_first());
    }
}

proof fn lemma_count_seq_snoc(s: Seq<MenuItem>, x: MenuItem)
    ensures
        node_count_seq(s.push(x)) == node_count_seq(s) + node_count(x),
    decreases s,
{
    assert(s.push(x).len() == s.len() + 1);
    assert(node_count_seq(s.push(x)) == node_count(s.push(x)[0]) + node_count_seq(
        s.push(x).drop_first(),
    ));
    if s.len() == 0 {
        assert(s.push(x)[0] == x);
        assert(s.push(x).drop_first() =~= Seq::<MenuItem>::empty());
        assert(node_count_seq(Seq::<MenuItem>::empty()) == 0);
    } else {
        assert(s.push(x)[0] == s[0]);
        assert(s.push(x).drop_first() =~= s.drop_first().push(x));
        lemma_count_seq_snoc(s.drop_first(), x);
        assert(node_count_seq(s.push(x)) == node_count(s[0]) + node_count_seq(
            s.drop_first().push(x),
        ));
    }
}

proof fn lemma_flat_seq_snoc(s: Seq<MenuItem>, x: MenuItem, start: int)
    ensures
        flat_map_seq(s.push(x), start) == flat_map_seq(s, start).union_prefer_right(
            flat_map(x, start + node_count_seq(s)),
        ),
    decreases s,
{
    if s.len() == 0 {
        assert(s.push(x)[0] == x);
        assert(s.push(x).drop_first() =~= Seq::<MenuItem>::empty());
        assert(flat_map_seq(Seq::<MenuItem>::empty(), start + node_count(x))
            == Map::<int, FlatNode>::empty());
        assert(node_count_seq(s) == 0);
        assert(flat_map_seq(s.push(x), start) =~= flat_map_seq(s, start).union_prefer_right(
            flat_map(x, start + node_count_seq(s)),
        ));
    } else {
        let s0 = s[0];
        let d = s.drop_first();
        let start2 = start + node_count(s0);
        assert(s.push(x)[0] == s0);
        assert(s.push(x).drop_first() =~= d.push(x));
        lemma_flat_seq_snoc(d, x, start2);
        assert(flat_map_seq(s.push(x), start) == flat_map(s0, start).union_prefer_right(
            flat_map_seq(d.push(x), start2),
        ));
        assert(node_count_seq(s) == node_count(s0) + node_count_seq(d));
        assert(flat_map_seq(s, start) == flat_map(s0, start).union_prefer_right(
            flat_map_seq(d, start2),
        ));
        assert(flat_map(s0, start).union_prefer_right(
            flat_map_seq(d, start2).union_prefer_right(flat_map(x, start + node_count_seq(s))),
        ) =~= flat_map(s0, start).union_prefer_right(flat_map_seq(d, start2)).union_prefer_right(
            flat_map(x, start + node_count_seq(s)),
        ));
    }
}

proof fn lemma_child_ids_snoc(s: Seq<MenuItem>, x: MenuItem, start: int)
    ensures
        child_ids(s.push(x), start) == child_ids(s, start).push(
            (start + node_count_seq(s)) as i32,
        ),
    decreases s,
{
    if s.len() == 0 {
        assert(s.push(x)[0] == x);
        assert(s.push(x).drop_first() =~= Seq::<MenuItem>::empty());
        assert(child_ids(Seq::<MenuItem>::empty(), start + node_count(x)) == Seq::<i32>::empty());
        assert(node_count_seq(s) == 0);
        assert(child_ids(s, start) == Seq::<i32>::empty());
        assert(child_ids(s.push(x), start) =~= child_ids(s, start).push(
            (start + node_count_seq(s)) as i32,
        ));
    } else {
        assert(s.push(x)[0] == s[0]);
        assert(s.push(x).drop_first() =~= s.drop_first().push(x));
        lemma_child_ids_snoc(s.drop_first(), x, start + node_count(s[0]));
        assert(child_ids(s.push(x), start) == seq![start as i32] + child_ids(
            s.drop_first().push(x),
            start + node_count(s[0]),
        ));
        assert(node_count_seq(s) == node_count(s[0]) + node_count_seq(s.drop_first()));
        assert(child_ids(s.push(x), start) =~= child_ids(s, start).push(
            (start + node_count_seq(s)) as i32,
        ));
    }
}

/// A subtree numbered from `start` occupies exactly the ids
/// `start .. start + node_count`.
proof fn lemma_flat_dom(m: MenuItem, start: int)
    ensures
        flat_map(m, start).dom() =~= Set::new(|k: int| start <= k < start + node_count(m)),
    decreases m,
{
    match m {
        MenuItem::Item { .. } => {},
        MenuItem::SubMenu { items, .. } => {
            lemma_flat_dom_seq(items@, start + 1);
        },
    }
}

/// A forest numbered from `start` occupies exactly the ids
/// `start .. start + node_count_seq`.
proof fn lemma_flat_dom_seq(s: Seq<MenuItem>, start: int)
    ensures
        flat_map_seq(s, start).dom() =~= Set::new(
            |k: int| start <= k < start + node_count_seq(s),
        ),
    decreases s,
{
    if s.len() > 0 {
        lemma_flat_dom(s[0], start);
        lemma_flat_dom_seq(s.drop_first(), start + node_count(s[0]));
        lemma_node_count_pos(s[0]);
    }
}

/// Each root of a forest numbered from `start` gets an id that is a key
/// of the forest's own table.
proof fn lemma_child_ids_in_dom(s: Seq<MenuItem>, start: int)
    requires
        0 <= start,
        start + node_count_seq(s) <= i32::MAX,
    ensures
        child_ids(s, start).len() == s.len(),
        forall|j: int|
            0 <= j < s.len() ==> flat_map_seq(s, start).contains_key(
                #[trigger] child_ids(s, start)[j] as int,
            ),
    decreases s,
{
    if s.len() > 0 {
        lemma_node_count_pos(s[0]);
        lemma_node_count_seq_ge_len(s.drop_first());
        lemma_flat_dom(s[0], start);
        lemma_flat_dom_seq(s.drop_first(), start + node_count(s[0]));
        lemma_child_ids_in_dom(s.drop_first(), start + node_count(s[0]));
        assert forall|j: int| 0 <= j < s.len() implies flat_map_seq(s, start).contains_key(
            #[trigger] child_ids(s, start)[j] as int,
        ) by {
            if j == 0 {
                assert(child_ids(s, start)[0] == start as i32);
                assert(flat_map(s[0], start).contains_key(start));
            } else {
                assert(child_ids(s, start)[j] == child_ids(
                    s.drop_first(),
                    start + node_count(s[0]),
                )[j - 1]);
            }
        }
    }
}

/// The flat table of a subtree is internally closed: each interior
/// node's children are keys of the subtree's own table.
proof fn lemma_flat_closed(m: MenuItem, start: int)
    requires
        0 <= start,
        start + node_count(m) <= i32::MAX,
    ensures
        table_closed(flat_map(m, start)),
    decreases m,
{
    match m {
        MenuItem::Item { .. } => {},
        MenuItem::SubMenu { items, .. } => {
            lemma_flat_closed_seq(items@, start + 1);
            lemma_child_ids_in_dom(items@, start + 1);
            lemma_flat_dom_seq(items@, start + 1);
            let total = flat_map(m, start);
            let sub = flat_map_seq(items@, start + 1);
            assert forall|k: int| total.contains_key(k) implies ((#[trigger] total[k]) matches FlatNode::Branch {
                children,
                ..
            } ==> children_present(total, children)) by {
                if k == start {
                    assert(total[k] == FlatNode::Branch {
                        label: m->SubMenu_title@,
                        children: child_ids(items@, start + 1),
                    });
                } else {
                    assert(sub.contains_key(k) && total[k] == sub[k]);
                }
            }
        },
    }
}

/// The flat table of a forest is internally closed.
proof fn lemma_flat_closed_seq(s: Seq<MenuItem>, start: int)
    requires
        0 <= start,
        start + node_count_seq(s) <= i32::MAX,
    ensures
        table_closed(flat_map_seq(s, start)),
    decreases s,
{
    if s.len() > 0 {
        lemma_node_count_pos(s[0]);
        lemma_flat_closed(s[0], start);
        lemma_flat_closed_seq(s.drop_first(), start + node_count(s[0]));
        let total = flat_map_seq(s, start);
        let left = flat_map(s[0], start);
        let right = flat_map_seq(s.drop_first(), start + node_count(s[0]));
        assert forall|k: int| total.contains_key(k) implies ((#[trigger] total[k]) matches FlatNode::Branch {
            children,
            ..
        } ==> children_present(total, children)) by {
            if right.contains_key(k) {
                assert(total[k] == right[k]);
            } else {
                assert(left.contains_key(k) && total[k] == left[k]);
            }
        }
    }
}


/// Every interior node's children have strictly larger ids than the
/// node itself.  Tables built by the preorder flattening have this
/// shape; it bounds the depth of any walk down the table.
pub open spec fn table_ordered(m: Map<int, FlatNode>) -> bool {
    forall|k: int|
        m.contains_key(k) ==> ((#[trigger] m[k]) matches FlatNode::Branch { children, .. }
            ==> children_above(k, children))
}

/// Every id in `children` lies strictly above `k`.
pub open spec fn children_above(k: int, children: Seq<i32>) -> bool {
    forall|j: int| 0 <= j < children.len() ==> (#[trigger] children[j]) as int > k
}

proof fn lemma_child_ids_ge(s: Seq<MenuItem>, start: int)
    requires
        0 <= start,
        start + node_count_seq(s) <= i32::MAX,
    ensures
        forall|j: int| 0 <= j < child_ids(s, start).len() ==> (
        #[trigger] child_ids(s, start)[j]) as int >= start,
    decreases s,
{
    if s.len() > 0 {
        lemma_node_count_pos(s[0]);
        lemma_node_count_seq_ge_len(s.drop_first());
        lemma_child_ids_ge(s.drop_first(), start + node_count(s[0]));
        assert forall|j: int| 0 <= j < child_ids(s, start).len() implies (
        #[trigger] child_ids(s, start)[j]) as int >= start by {
            if j > 0 {
                assert(child_ids(s, start)[j] == child_ids(
                    s.drop_first(),
                    start + node_count(s[0]),
                )[j - 1]);
            }
        }
    }
}

/// The flat table of a subtree is ordered: each interior node's
/// children sit strictly above it.
proof fn lemma_flat_ordered(m: MenuItem, start: int)
    requires
        0 <= start,
        start + node_count(m) <= i32::MAX,
    ensures
        table_ordered(flat_map(m, start)),
    decreases m,
{
    match m {
        MenuItem::Item { .. } => {},
        MenuItem::SubMenu { items, .. } => {
            lemma_flat_ordered_seq(items@, start + 1);
            lemma_child_ids_ge(items@, start + 1);
            lemma_child_ids_in_dom(items@, start + 1);
            let total = flat_map(m, start);
            let sub = flat_map_seq(items@, start + 1);
            assert forall|k: int| total.contains_key(k) implies ((#[trigger] total[k])
                matches FlatNode::Branch { children, .. } ==> children_above(k, children)) by {
                if k == start {
                    assert(total[k] == FlatNode::Branch {
                        label: m->SubMenu_title@,
                        children: child_ids(items@, start + 1),
                    });
                } else {
                    assert(sub.contains_key(k) && total[k] == sub[k]);
                }
            }
        },
    }
}

/// The flat table of a forest is ordered.
proof fn lemma_flat_ordered_seq(s: Seq<MenuItem>, start: int)
    requires
        0 <= start,
        start + node_count_seq(s) <= i32::MAX,
    ensures
        table_ordered(flat_map_seq(s, start)),
    decreases s,
{
    if s.len() > 0 {
        lemma_node_count_pos(s[0]);
        lemma_flat_ordered(s[0], start);
        lemma_flat_ordered_seq(s.drop_first(), start + node_count(s[0]));
        let total = flat_map_seq(s, start);
        let left = flat_map(s[0], start);
        let right = flat_map_seq(s.drop_first(), start + node_count(s[0]));
        assert forall|k: int| total.contains_key(k) implies ((#[trigger] total[k])
            matches FlatNode::Branch { children, .. } ==> children_above(k, children)) by {
            if right.contains_key(k) {
                assert(total[k] == right[k]);
            } else {
                assert(left.contains_key(k) && total[k] == left[k]);
            }
        }
    }
}

/// Preorder numbering state while a menu tree is flattened: the table
/// built so far and the next free id.
pub struct BuildContext {
    items: ItemTable,
    index: i32,
}

impl BuildContext {
    /// The table built so far.
    pub closed spec fn table(&self) -> Map<int, FlatNode> {
        self.items.as_map()
    }

    /// The next id to assign.
    pub closed spec fn idx(&self) -> int {
        self.index as int
    }

    /// Ids handed out so far sit strictly below `idx`, above 0.
    pub closed spec fn wf(&self) -> bool {
        &&& self.items.wf()
        &&& 1 <= self.index
        &&& forall|k: int| self.table().contains_key(k) ==> 1 <= k < self.idx()
    }

    /// Fresh numbering state: empty table, ids from 1 (0 is reserved
    /// for the synthetic root).
    pub fn new() -> (c: Self)
        ensures
            c.wf(),
            c.table() == Map::<int, FlatNode>::empty(),
            c.idx() == 1,
    {
        BuildContext { items: ItemTable::new(), index: 1 }
    }

    /// Flattens one subtree into the table, assigning it the ids
    /// `idx .. idx + node_count(*current)` in depth-first preorder, and
    /// returns the subtree root's id.
    #[verifier::loop_isolation(false)]
    pub fn push(&mut self, current: &MenuItem) -> (root_id: i32)
        requires
            old(self).wf(),
            old(self).idx() + node_count(*current) <= i32::MAX,
        ensures
            final(self).wf(),
            root_id == old(self).idx() as i32,
            final(self).idx() == old(self).idx() + node_count(*current),
            final(self).table() == old(self).table().union_prefer_right(
                flat_map(*current, old(self).idx()),
            ),
        decreases *current,
    {
        let index = self.index;
        proof {
            lemma_node_count_pos(*current);
        }
        match current {
            MenuItem::Item { title, id } => {
                self.index = self.index + 1;
                proof {
                    assert(self.items == old(self).items);
                    assert(!old(self).table().contains_key(index as int));
                    assert(!self.items.as_map().contains_key(index as int));
                }
                self.items.insert(index, Item::Item(*id, title.clone()));
                proof {
                    assert(self.items.as_map() =~= old(self).table().union_prefer_right(
                        flat_map(*current, old(self).idx()),
                    ));
                }
            },
            MenuItem::SubMenu { title, items } => {
                self.index = self.index + 1;
                let ghost start = index as int + 1;
                let mut children: Vec<i32> = Vec::new();
                let mut k: usize = 0;
                proof {
                    assert(items@.take(0) =~= Seq::<MenuItem>::empty());
                    assert(self.table() =~= old(self).table().union_prefer_right(
                        flat_map_seq(items@.take(0), start),
                    ));
                }
                while k < items.len()
                    invariant
                        self.wf(),
                        k <= items@.len(),
                        self.idx() == start + node_count_seq(items@.take(k as int)),
                        self.table() == old(self).table().union_prefer_right(
                            flat_map_seq(items@.take(k as int), start),
                        ),
                        children@ == child_ids(items@.take(k as int), start),
                    decreases items@.len() - k,
                {
                    proof {
                        lemma_node_count_seq_prefix(items@, k as int);
                    }
                    let child = self.push(&items[k]);
                    children.push(child);
                    proof {
                        assert(items@.take(k as int + 1) =~= items@.take(k as int).push(
                            items@[k as int],
                        ));
                        lemma_count_seq_snoc(items@.take(k as int), items@[k as int]);
                        lemma_flat_seq_snoc(items@.take(k as int), items@[k as int], start);
                        lemma_child_ids_snoc(items@.take(k as int), items@[k as int], start);
                        assert(self.table() =~= old(self).table().union_prefer_right(
                            flat_map_seq(items@.take(k as int + 1), start),
                        ));
                    }
                    k = k + 1;
                }
                proof {
                    assert(items@.take(items@.len() as int) =~= items@);
                    lemma_flat_dom_seq(items@, start);
                    assert(!self.table().contains_key(index as int));
                }
                self.items.insert(index, Item::Children(title.clone(), children));
                proof {
                    assert(self.items.as_map() =~= old(self).table().union_prefer_right(
                        flat_map(*current, old(self).idx()),
                    ));
                    assert forall|q: int| self.items.as_map().contains_key(q) implies 1 <= q
                        < self.index as int by {
                        lemma_flat_dom(*current, old(self).idx());
                    }
                }
            },
        }
        index
    }

    /// Finishes the build: installs the synthetic root (id 0) over the
    /// given top-level ids and hands the table out.
    pub fn into_table(self, root_children: Vec<i32>) -> (t: ItemTable)
        requires
            self.wf(),
        ensures
            t.wf(),
            t.as_map() == self.table().insert(
                0,
                FlatNode::Branch { label: Seq::empty(), children: root_children@ },
            ),
    {
        let ghost base = self.table();
        proof {
            assert(!base.contains_key(0));
        }
        let BuildContext { mut items, .. } = self;
        let empty = String::new();
        proof {
            assert(empty@ =~= Seq::<char>::empty());
        }
        items.insert(0, Item::Children(empty, root_children));
        proof {
            assert(items.as_map() =~= base.insert(
                0,
                FlatNode::Branch { label: Seq::empty(), children: root_children@ },
            ));
        }
        items
    }
}

proof fn lemma_node_count_seq_prefix(s: Seq<MenuItem>, k: int)
    requires
        0 <= k < s.len(),
    ensures
        node_count_seq(s.take(k)) + node_count(s[k]) <= node_count_seq(s),
    decreases s,
{
    if k == 0 {
        assert(s.take(0) =~= Seq::<MenuItem>::empty());
        lemma_node_count_seq_ge0(s.drop_first());
    } else {
        lemma_node_count_seq_prefix(s.drop_first(), k - 1);
        assert(s.take(k).drop_first() =~= s.drop_first().take(k - 1));
        assert(s.drop_first()[k - 1] == s[k]);
    }
}

proof fn lemma_node_count_seq_ge0(s: Seq<MenuItem>)
    ensures
        node_count_seq(s) >= 0,
{
}

/// Flattens a caller's menu description into the protocol table:
/// preorder ids from 1, synthetic root 0 over the top-level items.
/// The result always satisfies the protocol's structural invariants.
#[verifier::loop_isolation(false)]
pub fn build_layout_table(layout: &Vec<MenuItem>) -> (t: ItemTable)
    requires
        1 + node_count_seq(layout@) <= i32::MAX,
    ensures
        t.wf(),
        t.as_map() == flat_map_seq(layout@, 1).insert(
            0,
            FlatNode::Branch { label: Seq::empty(), children: child_ids(layout@, 1) },
        ),
        table_valid(t.as_map()),
        table_ordered(t.as_map()),
{
    let mut ctx = BuildContext::new();
    let mut root_ids: Vec<i32> = Vec::new();
    let mut k: usize = 0;
    proof {
        assert(layout@.take(0) =~= Seq::<MenuItem>::empty());
        assert(ctx.table() =~= flat_map_seq(layout@.take(0), 1));
    }
    while k < layout.len()
        invariant
            ctx.wf(),
            k <= layout@.len(),
            1 + node_count_seq(layout@) <= i32::MAX,
            ctx.idx() == 1 + node_count_seq(layout@.take(k as int)),
            ctx.table() == flat_map_seq(layout@.take(k as int), 1),
            root_ids@ == child_ids(layout@.take(k as int), 1),
        decreases layout@.len() - k,
    {
        proof {
            lemma_node_count_seq_prefix(layout@, k as int);
        }
        let id = ctx.push(&layout[k]);
        root_ids.push(id);
        proof {
            assert(layout@.take(k as int + 1) =~= layout@.take(k as int).push(layout@[k as int]));
            lemma_count_seq_snoc(layout@.take(k as int), layout@[k as int]);
            lemma_flat_seq_snoc(layout@.take(k as int), layout@[k as int], 1);
            lemma_child_ids_snoc(layout@.take(k as int), layout@[k as int], 1);
            assert(ctx.table() =~= flat_map_seq(layout@.take(k as int + 1), 1));
        }
        k = k + 1;
    }
    proof {
        assert(layout@.take(layout@.len() as int) =~= layout@);
    }
    let t = ctx.into_table(root_ids);
    proof {
        lemma_flat_closed_seq(layout@, 1);
        lemma_flat_ordered_seq(layout@, 1);
        lemma_child_ids_in_dom(layout@, 1);
        lemma_child_ids_ge(layout@, 1);
        lemma_flat_dom_seq(layout@, 1);
        let m = t.as_map();
        assert forall|k2: int| m.contains_key(k2) implies ((#[trigger] m[k2]) matches FlatNode::Branch {
            children,
            ..
        } ==> children_present(m, children)) by {
            if k2 != 0 {
                assert(flat_map_seq(layout@, 1)[k2] == m[k2]);
            }
        }
        assert forall|k2: int| m.contains_key(k2) implies ((#[trigger] m[k2]) matches FlatNode::Branch {
            children,
            ..
        } ==> children_above(k2, children)) by {
            if k2 != 0 {
                assert(flat_map_seq(layout@, 1)[k2] == m[k2]);
            }
        }
    }
    t
}


/// Counts the nodes a menu description would occupy, answering nothing
/// exactly when the count would leave no room in the protocol's id
/// space (the root also needs an id).  A caller that gets a number
/// back may hand the description to the menu builder.
pub fn count_layout_nodes(layout: &Vec<MenuItem>) -> (r: Option<i32>)
    ensures
        r matches Some(n) ==> n == node_count_seq(layout@) && 1 + node_count_seq(layout@)
            <= i32::MAX,
        r is None ==> 1 + node_count_seq(layout@) > i32::MAX,
    {
        let mut total: i32 = 0;
        let mut k: usize = 0;
        proof {
            assert(layout@.take(0) =~= Seq::<MenuItem>::empty());
        }
        while k < layout.len()
            invariant
                k <= layout@.len(),
                total == node_count_seq(layout@.take(k as int)),
                1 + node_count_seq(layout@.take(k as int)) <= i32::MAX,
            decreases layout@.len() - k,
        {
            proof {
                lemma_node_count_seq_prefix(layout@, k as int);
            }
            let c = match count_item_nodes(&layout[k]) {
                Some(c) => c,
                None => {
                    return None;
                },
            };
            if c > i32::MAX - 1 - total {
                return None;
            }
            total = total + c;
            proof {
                assert(layout@.take(k as int + 1) =~= layout@.take(k as int).push(
                    layout@[k as int],
                ));
                lemma_count_seq_snoc(layout@.take(k as int), layout@[k as int]);
            }
            k = k + 1;
        }
        proof {
            assert(layout@.take(layout@.len() as int) =~= layout@);
        }
        Some(total)
    }

/// Counts the nodes of one subtree, answering nothing exactly when
/// the count would not fit the id space.
#[verifier::loop_isolation(false)]
fn count_item_nodes(item: &MenuItem) -> (r: Option<i32>)
    ensures
        r matches Some(n) ==> n == node_count(*item) && node_count(*item) <= i32::MAX - 1,
        r is None ==> node_count(*item) > i32::MAX - 1,
    decreases *item,
{
    match item {
        MenuItem::Item { .. } => Some(1),
        MenuItem::SubMenu { items, .. } => {
            let mut total: i32 = 1;
            let mut k: usize = 0;
            proof {
                assert(items@.take(0) =~= Seq::<MenuItem>::empty());
            }
            while k < items.len()
                invariant
                    k <= items@.len(),
                    total == 1 + node_count_seq(items@.take(k as int)),
                    1 + node_count_seq(items@.take(k as int)) <= i32::MAX - 1,
                decreases items@.len() - k,
            {
                proof {
                    lemma_node_count_seq_prefix(items@, k as int);
                }
                let c = match count_item_nodes(&items[k]) {
                    Some(c) => c,
                    None => {
                        return None;
                    },
                };
                if c > i32::MAX - 1 - total {
                    return None;
                }
                total = total + c;
                proof {
                    assert(items@.take(k as int + 1) =~= items@.take(k as int).push(
                        items@[k as int],
                    ));
                    lemma_count_seq_snoc(items@.take(k as int), items@[k as int]);
                }
                k = k + 1;
            }
            proof {
                assert(items@.take(items@.len() as int) =~= items@);
            }
            Some(total)
        },
    }
}

} // verus!
