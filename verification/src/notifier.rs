//! Tray notifier sessions: one icon plus its replaceable menu, owned by
//! the caller through an opaque handle.
//!
//! A session is created by `add_notifier`, mutated through `set_menu`,
//! and torn down by exactly one `remove_notifier`; the registry makes a
//! stale or repeated handle fail instead of touching freed state.
//! Activation and menu-click events arrive from the platform's own
//! dispatch; they are resolved here against the session's current state
//! and answered as values for the event thread to deliver, so events
//! for a released session are silently dropped.

use vstd::prelude::*;

use crate::dbus_menu::{DBusMenu, LayoutNode};
use crate::handle::{Handle, HandleError, Registry};
use crate::menu::{
    build_layout_table, child_ids, empty_root_table, flat_map_seq, is_empty_root_map,
    node_count_seq, table_ordered, table_valid, FlatNode, MenuItem,
};
use crate::notifier_item::NotifierItem;
use crate::strings::{utf16_encode, Win32StringIntoExt};

verus! {

/// Receiver of tray events, implemented by the boundary layer: icon
/// activation and menu-item activation with the leaf's command id.
pub trait Listener {
    /// The icon was activated.
    fn on_active(&self);

    /// A menu leaf was activated.
    fn on_menu_active(&self, id: u16);
}

/// Why a session could not be created.
#[derive(Clone, Copy, Debug, PartialEq, Eq, Structural)]
pub enum NotifierError {
    /// The title exceeds the platform tooltip length limit.
    TitleTooLong,
    /// The handle does not address a live session.
    StaleHandle,
}

/// The platform tooltip limit, in UTF-16 code units including the
/// terminating NUL.
pub const TOOLTIP_LIMIT: usize = 128;

/// One tray icon with its published properties and its menu state.
pub struct NotifierSession {
    item: NotifierItem,
    menu: DBusMenu,
}

impl NotifierSession {
    /// The menu table is structurally sound, satisfies the protocol
    /// invariants, and is ordered: every table a session publishes
    /// comes out of the preorder builder or is the bare root.
    pub closed spec fn wf(&self) -> bool {
        &&& self.menu.data_spec().wf()
        &&& table_valid(self.menu.data_spec().layout())
        &&& table_ordered(self.menu.data_spec().layout())
    }

    /// The published menu table.
    pub closed spec fn layout(&self) -> Map<int, FlatNode> {
        self.menu.data_spec().layout()
    }

    /// The menu's layout version.
    pub closed spec fn layout_version(&self) -> u32 {
        self.menu.data_spec().layout_version()
    }

    /// The icon's published properties.
    pub closed spec fn item_spec(&self) -> NotifierItem {
        self.item
    }

    /// Creates the session state for one tray icon.  Succeeds exactly
    /// when the title fits the tooltip limit; the fresh session
    /// publishes no menu and has layout version 0.  The limit is the
    /// strictest platform's (the shell tooltip buffer, in UTF-16 code
    /// units) and is applied uniformly, so a session that builds here
    /// builds on every backend.  Whether the platform tray host accepts
    /// the registration is the transport's answer, delivered outside.
    pub fn new(app_id: &str, title: &str, icon: &str, is_rtl: bool) -> (r: Result<
        NotifierSession,
        NotifierError,
    >)
        ensures
            r is Ok <==> utf16_encode(title@).len() + 1 <= TOOLTIP_LIMIT,
            r is Err <==> utf16_encode(title@).len() + 1 > TOOLTIP_LIMIT,
            r matches Err(e) ==> e == NotifierError::TitleTooLong,
            r matches Ok(s) ==> {
                &&& s.wf()
                &&& s.layout_version() == 0
                &&& is_empty_root_map(s.layout())
                &&& s.item_spec().app_id_spec() == app_id@
                &&& s.item_spec().title_spec() == title@
                &&& s.item_spec().icon_spec() == icon@
                &&& !s.item_spec().menu_available_spec()
            },
    {
        let tips = title.to_owned().to_win32_utf16();
        if tips.len() > TOOLTIP_LIMIT {
            return Err(NotifierError::TitleTooLong);
        }
        Ok(NotifierSession { item: NotifierItem::new(app_id, title, icon), menu: DBusMenu::new(is_rtl) })
    }

    /// Replaces the whole menu atomically.  A tree replaces the table
    /// with its flattened form (preorder ids from 1 under a synthetic
    /// root 0); no tree clears to the bare root.  Either way the layout
    /// version moves up by one — tables built here always satisfy the
    /// protocol invariants, so a replacement never fails.
    pub fn set_menu(&mut self, layout: Option<&Vec<MenuItem>>) -> (r: Result<(), NotifierError>)
        requires
            old(self).wf(),
            old(self).layout_version() < u32::MAX,
            layout matches Some(l) ==> 1 + node_count_seq(l@) <= i32::MAX,
        ensures
            r is Ok,
            final(self).wf(),
            final(self).layout_version() == old(self).layout_version() + 1,
            final(self).item_spec() == old(self).item_spec(),
            match layout {
                Some(l) => final(self).layout() == flat_map_seq(l@, 1).insert(
                    0,
                    FlatNode::Branch { label: Seq::empty(), children: child_ids(l@, 1) },
                ),
                None => is_empty_root_map(final(self).layout()),
            },
    {
        let table = match layout {
            Some(l) => build_layout_table(l),
            None => empty_root_table(),
        };
        match self.menu.set_items(table) {
            Ok(()) => Ok(()),
            Err(_) => {
                proof {
                    assert(false);
                }
                Err(NotifierError::StaleHandle)
            },
        }
    }

    /// Resolves a click on menu node `index`: the leaf's command id to
    /// deliver to the listener, or nothing for an interior node or an
    /// unknown id.
    pub fn menu_event(&self, index: i32) -> (r: Option<u16>)
        requires
            self.wf(),
        ensures
            match r {
                Some(id) => self.layout().contains_key(index as int) && (self.layout()[
                    index as int
                ] matches FlatNode::Leaf { id: leaf_id, .. } && leaf_id == id),
                None => !(self.layout().contains_key(index as int) && self.layout()[index as int]
                    is Leaf),
            },
    {
        self.menu.event_clicked(index)
    }


    /// Serves the get-layout call against this session's menu; see
    /// `DBusMenu::get_layout`.
    pub fn get_layout(&self, parent_id: i32, depth: i64) -> (r: Option<(u32, LayoutNode)>)
        requires
            self.wf(),
        ensures
            r is Some <==> self.layout().contains_key(parent_id as int),
            r matches Some((version, node)) ==> version == self.layout_version()
                && crate::dbus_menu::layout_node_ok(
                self.layout(),
                parent_id as int,
                depth as int,
                node,
            ),
    {
        self.menu.get_layout(parent_id, depth)
    }

    /// The version stamped on the next layout reply.
    pub fn layout_version_now(&self) -> (v: u32)
        ensures
            v == self.layout_version(),
    {
        self.menu.layout_version()
    }
}

/// All live sessions, keyed by the opaque handles the caller holds.
pub struct NotifierRegistry {
    sessions: Registry<NotifierSession>,
}

impl NotifierRegistry {
    /// Every live session is structurally sound.
    pub closed spec fn wf(&self) -> bool {
        &&& self.sessions.wf()
        &&& forall|k: int|
            self.sessions.contents().contains_key(k) ==> (
            #[trigger] self.sessions.contents()[k]).wf()
    }

    /// The live sessions by slot index.
    pub closed spec fn contents(&self) -> Map<int, NotifierSession> {
        self.sessions.contents()
    }

    /// Whether `h` addresses a live session.
    pub closed spec fn valid(&self, h: Handle) -> bool {
        self.sessions.valid(h)
    }

    /// An empty registry.
    pub fn new() -> (r: Self)
        ensures
            r.wf(),
            r.contents() == Map::<int, NotifierSession>::empty(),
    {
        NotifierRegistry { sessions: Registry::new() }
    }

    /// How many sessions are live.
    pub fn live_count(&self) -> (n: usize)
        requires
            self.wf(),
        ensures
            n == self.contents().dom().len(),
    {
        self.sessions.live_count()
    }

    /// Creates a session and hands its owner a fresh opaque handle.
    /// Fails exactly when the title exceeds the tooltip limit, leaving
    /// the registry untouched.
    pub fn add_notifier(&mut self, app_id: &str, title: &str, icon: &str, is_rtl: bool) -> (r:
        Result<Handle, NotifierError>)
        requires
            old(self).wf(),
        ensures
            final(self).wf(),
            r is Ok <==> utf16_encode(title@).len() + 1 <= TOOLTIP_LIMIT,
            r is Err ==> *final(self) == *old(self) && r == Err::<Handle, NotifierError>(
                NotifierError::TitleTooLong,
            ),
            r matches Ok(h) ==> {
                &&& !old(self).valid(h)
                &&& final(self).valid(h)
                &&& !old(self).contents().contains_key(h.index as int)
                &&& final(self).contents().contains_key(h.index as int)
                &&& final(self).contents().remove(h.index as int) == old(self).contents()
                &&& ({
                    let s = final(self).contents()[h.index as int];
                    &&& s.layout_version() == 0
                    &&& is_empty_root_map(s.layout())
                    &&& s.item_spec().app_id_spec() == app_id@
                    &&& s.item_spec().title_spec() == title@
                    &&& s.item_spec().icon_spec() == icon@
                })
                &&& forall|g: Handle| old(self).valid(g) ==> #[trigger] final(self).valid(g)
                &&& forall|g: Handle|
                    old(self).valid(g) ==> final(self).contents()[g.index as int]
                        == old(self).contents()[g.index as int]
            },
    {
        let session = match NotifierSession::new(app_id, title, icon, is_rtl) {
            Ok(s) => s,
            Err(e) => {
                return Err(e);
            },
        };
        let h = self.sessions.acquire(session);
        proof {
            assert(final(self).contents().remove(h.index as int) =~= old(self).contents());
            assert forall|k: int| self.sessions.contents().contains_key(k) implies (
            #[trigger] self.sessions.contents()[k]).wf() by {
                if k != h.index as int {
                    assert(old(self).sessions.contents().contains_key(k));
                }
            }
        }
        Ok(h)
    }

    /// Replaces the menu of the session behind `h`; see
    /// `NotifierSession::set_menu`.  Fails exactly on a stale handle,
    /// touching nothing.
    pub fn set_menu(&mut self, h: Handle, layout: Option<&Vec<MenuItem>>) -> (r: Result<
        (),
        NotifierError,
    >)
        requires
            old(self).wf(),
            old(self).valid(h) ==> old(self).contents()[h.index as int].layout_version()
                < u32::MAX,
            layout matches Some(l) ==> 1 + node_count_seq(l@) <= i32::MAX,
        ensures
            final(self).wf(),
            r is Ok <==> old(self).valid(h),
            r is Err ==> *final(self) == *old(self) && r == Err::<(), NotifierError>(
                NotifierError::StaleHandle,
            ),
            r is Ok ==> {
                &&& final(self).valid(h)
                &&& ({
                    let s0 = old(self).contents()[h.index as int];
                    let s1 = final(self).contents()[h.index as int];
                    &&& s1.layout_version() == s0.layout_version() + 1
                    &&& s1.item_spec() == s0.item_spec()
                    &&& match layout {
                        Some(l) => s1.layout() == flat_map_seq(l@, 1).insert(
                            0,
                            FlatNode::Branch {
                                label: Seq::empty(),
                                children: child_ids(l@, 1),
                            },
                        ),
                        None => is_empty_root_map(s1.layout()),
                    }
                })
                &&& final(self).contents().remove(h.index as int) == old(
                    self,
                ).contents().remove(h.index as int)
                &&& forall|g: Handle|
                    old(self).valid(g) && g.index != h.index ==> #[trigger] final(self).valid(g)
                        && final(self).contents()[g.index as int]
                        == old(self).contents()[g.index as int]
            },
    {
        let mut session = match self.sessions.take_value(h) {
            Ok(s) => s,
            Err(_) => {
                return Err(NotifierError::StaleHandle);
            },
        };
        proof {
            old(self).sessions.lemma_valid_contains(h);
            assert((old(self).sessions.contents()[h.index as int]).wf());
        }
        let r = session.set_menu(layout);
        proof {
            assert(r is Ok);
        }
        self.sessions.put_back(h, session);
        proof {
            assert(final(self).contents().remove(h.index as int) =~= old(self).contents().remove(
                h.index as int,
            ));
            assert forall|k: int| self.sessions.contents().contains_key(k) implies (
            #[trigger] self.sessions.contents()[k]).wf() by {
                if k != h.index as int {
                    assert(old(self).sessions.contents().contains_key(k));
                }
            }
        }
        Ok(())
    }

    /// Resolves an icon activation: whether the listener's activation
    /// callback is to run.  An event for a released session is dropped.
    pub fn activate_event(&self, h: Handle) -> (deliver: bool)
        requires
            self.wf(),
        ensures
            deliver == self.valid(h),
    {
        match self.sessions.get(h) {
            Some(_) => true,
            None => false,
        }
    }

    /// Resolves a menu click for the session behind `h`: the command id
    /// to deliver, or nothing when the session was released or the node
    /// is no leaf.
    pub fn menu_event(&self, h: Handle, index: i32) -> (r: Option<u16>)
        requires
            self.wf(),
        ensures
            !self.valid(h) ==> r is None,
            self.valid(h) ==> ({
                let m = self.contents()[h.index as int].layout();
                match r {
                    Some(id) => m.contains_key(index as int) && (m[index as int]
                        matches FlatNode::Leaf { id: leaf_id, .. } && leaf_id == id),
                    None => !(m.contains_key(index as int) && m[index as int] is Leaf),
                }
            }),
    {
        match self.sessions.get(h) {
            Some(session) => {
                proof {
                    self.sessions.lemma_valid_contains(h);
                    assert((self.sessions.contents()[h.index as int]).wf());
                }
                session.menu_event(index)
            },
            None => None,
        }
    }


    /// The layout version of the session behind `h`, or nothing for a
    /// stale handle.  The boundary layer checks this before asking for
    /// another replacement.
    pub fn layout_version_of(&self, h: Handle) -> (r: Option<u32>)
        requires
            self.wf(),
        ensures
            match r {
                Some(v) => self.valid(h) && v == self.contents()[h.index as int].layout_version(),
                None => !self.valid(h),
            },
    {
        match self.sessions.get(h) {
            Some(session) => Some(session.layout_version_now()),
            None => None,
        }
    }

    /// Tears the session down: takes it out of the registry, to be
    /// unregistered from the tray host before its listener state is
    /// freed.  Succeeds exactly once per handle; later events for the
    /// handle find nothing and are dropped.
    pub fn remove_notifier(&mut self, h: Handle) -> (r: Result<NotifierSession, HandleError>)
        requires
            old(self).wf(),
        ensures
            final(self).wf(),
            r is Ok <==> old(self).valid(h),
            r is Err ==> *final(self) == *old(self),
            r is Ok ==> final(self).contents() == old(self).contents().remove(h.index as int),
            !final(self).valid(h),
            forall|g: Handle|
                old(self).valid(g) && g.index != h.index ==> #[trigger] final(self).valid(g)
                    && final(self).contents()[g.index as int]
                    == old(self).contents()[g.index as int],
    {
        let r = self.sessions.release(h);
        proof {
            if r is Ok {
                assert forall|k: int| self.sessions.contents().contains_key(k) implies (
                #[trigger] self.sessions.contents()[k]).wf() by {
                    assert(old(self).sessions.contents().contains_key(k));
                }
            }
        }
        r
    }
}


/// The tray callback event for a primary activation of the icon.
pub const NIN_SELECT: u32 = 0x400;

/// The tray callback event for a context-menu request.
pub const WM_CONTEXTMENU_EVENT: u32 = 0x7B;

/// One message for the tray icon's message-only window, after the
/// platform layer has unpacked the callback parameters: the event word
/// and the pointer coordinates the shell packed into them.
#[derive(Clone, Copy, Debug, PartialEq, Eq, Structural)]
pub enum TrayMessage {
    /// The tray window is being destroyed.
    Destroy,
    /// A shell callback: `event` is the notification code, the
    /// coordinates are where the interaction happened.
    Callback { event: u32, x: i16, y: i16 },
    /// Anything else.
    Other,
}

/// What the tray window procedure must do with a message, before
/// falling through to default handling.
#[derive(Clone, Copy, Debug, PartialEq, Eq, Structural)]
pub enum TrayAction {
    /// Run the listener's activation callback.
    DeliverActivate,
    /// Bring the window to the foreground and pop the context menu up
    /// at these coordinates with this alignment; the chosen command id
    /// then goes through `menu_choice`.
    ShowMenu { x: i32, y: i32, align_right: bool },
    /// Destroy the stored menu and drop the listener state.
    Cleanup,
    /// Default handling only.
    Nothing,
}

/// The action for a tray-window message, given whether listener state
/// is attached, whether a menu is stored, and the system's menu-drop
/// alignment: without listener state everything is default-handled;
/// destruction cleans up; a select callback activates the listener; a
/// context-menu callback pops the stored menu up, if any.
pub open spec fn spec_tray_action(
    has_listener: bool,
    has_menu: bool,
    menu_drop_align_right: bool,
    msg: TrayMessage,
) -> TrayAction {
    if !has_listener {
        TrayAction::Nothing
    } else {
        match msg {
            TrayMessage::Destroy => TrayAction::Cleanup,
            TrayMessage::Callback { event, x, y } => if event == NIN_SELECT {
                TrayAction::DeliverActivate
            } else if event == WM_CONTEXTMENU_EVENT {
                if has_menu {
                    TrayAction::ShowMenu {
                        x: x as i32,
                        y: y as i32,
                        align_right: menu_drop_align_right,
                    }
                } else {
                    TrayAction::Nothing
                }
            } else {
                TrayAction::Nothing
            },
            TrayMessage::Other => TrayAction::Nothing,
        }
    }
}

/// Decides the tray window procedure's action for one message; the
/// procedure performs it and then always chains to default handling.
pub fn tray_message_action(
    has_listener: bool,
    has_menu: bool,
    menu_drop_align_right: bool,
    msg: &TrayMessage,
) -> (a: TrayAction)
    ensures
        a == spec_tray_action(has_listener, has_menu, menu_drop_align_right, *msg),
{
    if !has_listener {
        return TrayAction::Nothing;
    }
    match msg {
        TrayMessage::Destroy => TrayAction::Cleanup,
        TrayMessage::Callback { event, x, y } => {
            if *event == NIN_SELECT {
                TrayAction::DeliverActivate
            } else if *event == WM_CONTEXTMENU_EVENT {
                if has_menu {
                    TrayAction::ShowMenu {
                        x: *x as i32,
                        y: *y as i32,
                        align_right: menu_drop_align_right,
                    }
                } else {
                    TrayAction::Nothing
                }
            } else {
                TrayAction::Nothing
            }
        },
        TrayMessage::Other => TrayAction::Nothing,
    }
}

/// Interprets what the popup-menu call returned: a nonzero command is
/// the chosen leaf's id, to be delivered to the listener; zero means
/// the menu was dismissed and nothing is delivered.
pub fn menu_choice(command: u16) -> (r: Option<u16>)
    ensures
        r == if command != 0 {
            Some(command)
        } else {
            None::<u16>
        },
{
    if command != 0 {
        Some(command)
    } else {
        None
    }
}

} // verus!
