//! The status-notifier item: the tray icon's published properties
//! (identity, icon name, title, whether a menu object is available).
//!
//! The remote interface that serves these properties, and the signals
//! announcing changes, live in the transport outside; this type is the
//! state they read.

use vstd::prelude::*;

verus! {

/// Properties of one tray icon as announced to the tray host.
pub struct NotifierItem {
    app_id: String,
    icon: String,
    title: String,
    menu_available: bool,
}

impl NotifierItem {
    /// The application id property.
    pub closed spec fn app_id_spec(&self) -> Seq<char> {
        self.app_id@
    }

    /// The icon name property.
    pub closed spec fn icon_spec(&self) -> Seq<char> {
        self.icon@
    }

    /// The title property.
    pub closed spec fn title_spec(&self) -> Seq<char> {
        self.title@
    }

    /// Whether the item announces a menu object.
    pub closed spec fn menu_available_spec(&self) -> bool {
        self.menu_available
    }

    /// A fresh item with the given identity and no menu announced.
    pub fn new(app_id: &str, title: &str, icon: &str) -> (item: Self)
        ensures
            item.app_id_spec() == app_id@,
            item.title_spec() == title@,
            item.icon_spec() == icon@,
            !item.menu_available_spec(),
    {
        NotifierItem {
            app_id: app_id.to_owned(),
            icon: icon.to_owned(),
            title: title.to_owned(),
            menu_available: false,
        }
    }

    /// Announces or withdraws the menu object.  The change signals the
    /// transport then emits (`new_menu`, the menu property change) are
    /// outside.
    pub fn set_menu_available(&mut self, available: bool)
        ensures
            final(self).menu_available_spec() == available,
            final(self).app_id_spec() == old(self).app_id_spec(),
            final(self).title_spec() == old(self).title_spec(),
            final(self).icon_spec() == old(self).icon_spec(),
    {
        self.menu_available = available;
    }

    /// The tooltip property: empty icon, no pixmaps, the title as the
    /// tooltip text, empty description.
    pub fn tool_tip(&self) -> (r: (String, Vec<(i32, i32, Vec<u8>)>, String, String))
        ensures
            r.0@.len() == 0,
            r.1@.len() == 0,
            r.2@ == self.title_spec(),
            r.3@.len() == 0,
    {
        (String::new(), Vec::new(), self.title.clone(), String::new())
    }

    /// The title property value.
    pub fn title(&self) -> (r: String)
        ensures
            r@ == self.title_spec(),
    {
        self.title.clone()
    }

    /// The icon-name property value.
    pub fn icon_name(&self) -> (r: String)
        ensures
            r@ == self.icon_spec(),
    {
        self.icon.clone()
    }

    /// The id property value.
    pub fn id(&self) -> (r: String)
        ensures
            r@ == self.app_id_spec(),
    {
        self.app_id.clone()
    }
}

} // verus!
