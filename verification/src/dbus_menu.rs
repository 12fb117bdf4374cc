//! The published side of the tray menu: the current flat table plus the
//! monotonic layout version the change-notification protocol stamps on
//! every reply.
//!
//! Replacing the table is atomic: a structurally invalid replacement is
//! rejected and the previous menu stays in effect; an accepted one
//! installs the new table and increments the version by exactly one.
//! Click events are resolved against the current table and answered
//! with the leaf's caller-assigned command id; the transport that
//! carries the answer to the listener stays outside.

use vstd::prelude::*;

use crate::menu::{table_closed, table_has_root, table_ordered, table_valid, FlatNode,
    is_empty_root_map, empty_root_table, ItemTable, Item, MenuError};
use crate::strings::str_eq;

verus! {

/// Menu state served to the tray protocol: direction flag, current
/// table, layout version.
pub struct DBusMenuData {
    is_rtl: bool,
    items: ItemTable,
    version: u32,
}

impl DBusMenuData {
    /// The table is structurally sound (unique ids).
    pub closed spec fn wf(&self) -> bool {
        self.items.wf()
    }

    /// The currently published table.
    pub closed spec fn layout(&self) -> Map<int, FlatNode> {
        self.items.as_map()
    }

    /// The current layout version.
    pub closed spec fn layout_version(&self) -> u32 {
        self.version
    }

    /// Right-to-left text direction flag.
    pub closed spec fn rtl(&self) -> bool {
        self.is_rtl
    }

    /// Fresh menu state: version 0 and a bare root (the encoding of
    /// "no menu").
    pub fn new(is_rtl: bool) -> (d: Self)
        ensures
            d.wf(),
            d.layout_version() == 0,
            is_empty_root_map(d.layout()),
            table_valid(d.layout()),
            table_ordered(d.layout()),
            d.rtl() == is_rtl,
    {
        DBusMenuData { is_rtl, items: empty_root_table(), version: 0 }
    }

    /// Replaces the whole table atomically.  Accepts exactly the tables
    /// that satisfy the structural protocol invariants; a rejected
    /// replacement leaves the previous menu and version intact, an
    /// accepted one installs the table and bumps the version by one.
    pub fn set_items(&mut self, items: ItemTable) -> (r: Result<(), MenuError>)
        requires
            old(self).wf(),
            items.wf(),
            old(self).layout_version() < u32::MAX,
        ensures
            final(self).wf(),
            r is Ok <==> table_valid(items.as_map()),
            r == Err::<(), MenuError>(MenuError::MissingChild) <==> !table_closed(items.as_map()),
            r == Err::<(), MenuError>(MenuError::InvalidRoot) <==> table_closed(items.as_map())
                && !table_has_root(items.as_map()),
            r is Ok ==> final(self).layout() == items.as_map() && final(self).layout_version()
                == old(self).layout_version() + 1 && final(self).rtl() == old(self).rtl(),
            r is Err ==> *final(self) == *old(self),
    {
        match items.validate() {
            Err(e) => Err(e),
            Ok(()) => {
                self.items = items;
                self.version = self.version + 1;
                Ok(())
            },
        }
    }

    /// The version the next layout reply carries.
    pub fn get_layout_version(&self) -> (v: u32)
        ensures
            v == self.layout_version(),
    {
        self.version
    }

    /// Resolves a click on table node `index`: answers the leaf's
    /// caller-assigned command id, to be delivered to the listener, or
    /// nothing when the node is absent or an interior node.
    pub fn emit_click_event(&self, index: i32) -> (r: Option<u16>)
        requires
            self.wf(),
        ensures
            match r {
                Some(id) => self.layout().contains_key(index as int) && (self.layout()[
                    index as int
                ] matches FlatNode::Leaf { id: leaf_id, .. } && leaf_id == id),
                None => !(self.layout().contains_key(index as int) && self.layout()[index as int]
                    is Leaf),
            },
    {
        match self.items.get(index) {
            Some(Item::Item(id, _)) => Some(*id),
            _ => None,
        }
    }

    /// The text-direction property value.
    pub fn get_text_direction(&self) -> (r: &'static str)
        ensures
            self.rtl() ==> r@ == "rtl"@,
            !self.rtl() ==> r@ == "ltr"@,
    {
        if self.is_rtl {
            "rtl"
        } else {
            "ltr"
        }
    }
}

/// The menu object as served on the bus: owns the menu state.  The
/// signal emission that announces a change (`layout_updated`) is the
/// transport's business and happens outside.
pub struct DBusMenu {
    data: DBusMenuData,
}

impl DBusMenu {
    /// The menu state behind this object.
    pub closed spec fn data_spec(&self) -> DBusMenuData {
        self.data
    }

    /// A fresh menu object with no menu published.
    pub fn new(is_rtl: bool) -> (m: Self)
        ensures
            m.data_spec().wf(),
            m.data_spec().layout_version() == 0,
            is_empty_root_map(m.data_spec().layout()),
            table_valid(m.data_spec().layout()),
            table_ordered(m.data_spec().layout()),
            m.data_spec().rtl() == is_rtl,
    {
        DBusMenu { data: DBusMenuData::new(is_rtl) }
    }

    /// Replaces the published table; see `DBusMenuData::set_items`.
    pub fn set_items(&mut self, items: ItemTable) -> (r: Result<(), MenuError>)
        requires
            old(self).data_spec().wf(),
            items.wf(),
            old(self).data_spec().layout_version() < u32::MAX,
        ensures
            final(self).data_spec().wf(),
            r is Ok <==> table_valid(items.as_map()),
            r is Ok ==> final(self).data_spec().layout() == items.as_map()
                && final(self).data_spec().layout_version()
                == old(self).data_spec().layout_version() + 1 && final(self).data_spec().rtl()
                == old(self).data_spec().rtl(),
            r is Err ==> *final(self) == *old(self),
    {
        self.data.set_items(items)
    }

    /// Resolves a `"clicked"` protocol event against the current table;
    /// see `DBusMenuData::emit_click_event`.
    pub fn event_clicked(&self, index: i32) -> (r: Option<u16>)
        requires
            self.data_spec().wf(),
        ensures
            match r {
                Some(id) => self.data_spec().layout().contains_key(index as int) && (self
                    .data_spec().layout()[index as int] matches FlatNode::Leaf {
                    id: leaf_id,
                    ..
                } && leaf_id == id),
                None => !(self.data_spec().layout().contains_key(index as int)
                    && self.data_spec().layout()[index as int] is Leaf),
            },
    {
        self.data.emit_click_event(index)
    }

    /// The version stamped on the next layout reply.
    pub fn layout_version(&self) -> (v: u32)
        ensures
            v == self.data_spec().layout_version(),
    {
        self.data.get_layout_version()
    }
}


/// The property set of one layout node, as the get-layout and
/// get-group-properties calls report it: leaves are enabled and
/// visible with their label; interior nodes announce a submenu and
/// carry their label unless they are the synthetic root.
pub struct ItemProperties {
    /// The node's label, absent only on the synthetic root.
    pub label: Option<String>,
    /// Whether the node announces children (the children-display
    /// property).
    pub is_submenu: bool,
}

impl DBusMenuData {
    /// Looks one node up for a layout or property reply: its property
    /// set, or nothing for an id absent from the table.
    pub fn get_item_properties(&self, index: i32) -> (r: Option<ItemProperties>)
        requires
            self.wf(),
        ensures
            r is Some <==> self.layout().contains_key(index as int),
            r matches Some(p) ==> match self.layout()[index as int] {
                FlatNode::Leaf { label, .. } => !p.is_submenu && (p.label matches Some(l) && l@
                    == label),
                FlatNode::Branch { label, .. } => p.is_submenu && if index == 0 {
                    p.label is None
                } else {
                    p.label matches Some(l) && l@ == label
                },
            },
    {
        match self.items.get(index) {
            Some(Item::Item(_, title)) => Some(ItemProperties {
                label: Some(title.clone()),
                is_submenu: false,
            }),
            Some(Item::Children(title, _)) => Some(ItemProperties {
                label: if index == 0 {
                    None
                } else {
                    Some(title.clone())
                },
                is_submenu: true,
            }),
            None => None,
        }
    }
}


/// One node of a layout reply: its id, its property set, and its
/// children down to the requested depth.
pub struct LayoutNode {
    /// The node's table id.
    pub id: i32,
    /// The node's reported properties.
    pub properties: ItemProperties,
    /// The children included in the reply.
    pub children: Vec<LayoutNode>,
}

/// Whether `n` is the faithful reply for table node `index` at the
/// given remaining depth: the right id and properties, and — for an
/// interior node with depth remaining — one faithful child reply per
/// child id, in table order.  Depth 0 cuts the children off; a
/// negative depth never does.
pub open spec fn layout_node_ok(m: Map<int, FlatNode>, index: int, depth: int, n: LayoutNode) -> bool
    decreases n,
{
    &&& n.id as int == index
    &&& m.contains_key(index)
    &&& match m[index] {
        FlatNode::Leaf { label, .. } => {
            &&& !n.properties.is_submenu
            &&& n.properties.label matches Some(l) && l@ == label
            &&& n.children@.len() == 0
        },
        FlatNode::Branch { label, children } => {
            &&& n.properties.is_submenu
            &&& if index == 0 {
                n.properties.label is None
            } else {
                n.properties.label matches Some(l) && l@ == label
            }
            &&& if depth == 0 {
                n.children@.len() == 0
            } else {
                n.children@.len() == children.len() && forall|j: int|
                    0 <= j < children.len() ==> layout_node_ok(
                        m,
                        children[j] as int,
                        if depth < 0 {
                            depth
                        } else {
                            depth - 1
                        },
                        #[trigger] n.children@[j],
                    )
            }
        },
    }
}

impl DBusMenuData {
    /// Assembles the layout reply rooted at `index`, recursing `depth`
    /// levels into interior nodes (a negative depth means no limit, as
    /// the protocol's get-layout call uses it).  Answers a reply
    /// exactly when the id is in the table.  The table must be closed
    /// and ordered — every table this module publishes through the
    /// session path is — so the walk finds every child and terminates.
    pub fn get_item(&self, index: i32, depth: i64) -> (r: Option<LayoutNode>)
        requires
            self.wf(),
            table_closed(self.layout()),
            table_ordered(self.layout()),
        ensures
            r is Some <==> self.layout().contains_key(index as int),
            r matches Some(n) ==> layout_node_ok(self.layout(), index as int, depth as int, n),
        decreases i32::MAX - index,
    {
        let ghost m = self.layout();
        match self.items.get(index) {
            None => None,
            Some(Item::Item(_, title)) => Some(LayoutNode {
                id: index,
                properties: ItemProperties { label: Some(title.clone()), is_submenu: false },
                children: Vec::new(),
            }),
            Some(Item::Children(title, children)) => {
                proof {
                    assert(m[index as int] == FlatNode::Branch {
                        label: title@,
                        children: children@,
                    });
                }
                let mut child_nodes: Vec<LayoutNode> = Vec::new();
                if depth != 0 {
                    let next_depth: i64 = if depth < 0 {
                        depth
                    } else {
                        depth - 1
                    };
                    let mut c: usize = 0;
                    while c < children.len()
                        invariant
                            self.wf(),
                            table_closed(m),
                            table_ordered(m),
                            m == self.layout(),
                            m.contains_key(index as int),
                            m[index as int] matches FlatNode::Branch { children: ch, .. } && ch
                                == children@,
                            c <= children@.len(),
                            child_nodes@.len() == c,
                            depth != 0,
                            next_depth == if depth < 0 {
                                depth as int
                            } else {
                                depth - 1
                            },
                            forall|j: int|
                                0 <= j < c ==> layout_node_ok(
                                    m,
                                    children@[j] as int,
                                    next_depth as int,
                                    #[trigger] child_nodes@[j],
                                ),
                        decreases children@.len() - c,
                    {
                        let child_id = children[c];
                        proof {
                            assert(m.contains_key(child_id as int));
                            assert(child_id as int > index as int);
                        }
                        match self.get_item(child_id, next_depth) {
                            Some(node) => child_nodes.push(node),
                            None => {
                                proof {
                                    assert(false);
                                }
                            },
                        }
                        c = c + 1;
                    }
                }
                Some(LayoutNode {
                    id: index,
                    properties: ItemProperties {
                        label: if index == 0 {
                            None
                        } else {
                            Some(title.clone())
                        },
                        is_submenu: true,
                    },
                    children: child_nodes,
                })
            },
        }
    }
}


impl DBusMenu {
    /// Serves the protocol's get-layout call: the current layout
    /// version and the reply tree rooted at `parent_id`, down to
    /// `depth` levels (negative: unlimited).  Answers nothing exactly
    /// when the parent id is not in the table — the transport turns
    /// that into its not-found error.
    pub fn get_layout(&self, parent_id: i32, depth: i64) -> (r: Option<(u32, LayoutNode)>)
        requires
            self.data_spec().wf(),
            table_closed(self.data_spec().layout()),
            table_ordered(self.data_spec().layout()),
        ensures
            r is Some <==> self.data_spec().layout().contains_key(parent_id as int),
            r matches Some((version, node)) ==> version == self.data_spec().layout_version()
                && layout_node_ok(
                self.data_spec().layout(),
                parent_id as int,
                depth as int,
                node,
            ),
    {
        match self.data.get_item(parent_id, depth) {
            Some(node) => Some((self.data.get_layout_version(), node)),
            None => None,
        }
    }
}


impl DBusMenu {
    /// Serves the protocol's event call: only a `"clicked"` event on a
    /// leaf resolves to a command id for the listener; every other
    /// event kind is ignored.
    pub fn event(&self, id: i32, event_id: &str) -> (r: Option<u16>)
        requires
            self.data_spec().wf(),
        ensures
            event_id@ != "clicked"@ ==> r is None,
            event_id@ == "clicked"@ ==> match r {
                Some(cmd) => self.data_spec().layout().contains_key(id as int) && (self
                    .data_spec().layout()[id as int] matches FlatNode::Leaf {
                    id: leaf_id,
                    ..
                } && leaf_id == cmd),
                None => !(self.data_spec().layout().contains_key(id as int)
                    && self.data_spec().layout()[id as int] is Leaf),
            },
    {
        if str_eq(event_id, "clicked") {
            self.data.emit_click_event(id)
        } else {
            None
        }
    }

    /// The protocol revision this menu object speaks.
    pub fn protocol_version(&self) -> (v: u32)
        ensures
            v == 4,
    {
        4
    }

    /// The menu object's status property.
    pub fn status(&self) -> (r: &'static str)
        ensures
            r@ == "normal"@,
    {
        "normal"
    }
}

} // verus!
