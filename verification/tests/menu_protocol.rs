// Menu-tree validation, version stamping, and the session protocol
// end to end.

use compat::dbus_menu::{DBusMenu, DBusMenuData};
use compat::handle::HandleError;
use compat::menu::{empty_root_table, Item, ItemTable, MenuError, MenuItem};
use compat::notifier::{NotifierError, NotifierRegistry, NotifierSession};

fn leaf(title: &str, id: u16) -> MenuItem {
    MenuItem::Item { title: title.to_owned(), id }
}

fn submenu(title: &str, items: Vec<MenuItem>) -> MenuItem {
    MenuItem::SubMenu { title: title.to_owned(), items }
}

#[test]
fn validate_accepts_well_formed_table() {
    let mut table = ItemTable::new();
    table.insert(0, Item::Children(String::new(), vec![1, 2]));
    table.insert(1, Item::Item(5, "A".to_owned()));
    table.insert(2, Item::Children("B".to_owned(), vec![3]));
    table.insert(3, Item::Item(7, "C".to_owned()));
    assert!(table.validate().is_ok());
}

#[test]
fn validate_rejects_missing_child() {
    let mut table = ItemTable::new();
    table.insert(0, Item::Children(String::new(), vec![1, 9]));
    table.insert(1, Item::Item(5, "A".to_owned()));
    assert_eq!(table.validate(), Err(MenuError::MissingChild));
}

#[test]
fn validate_rejects_missing_root() {
    let mut table = ItemTable::new();
    table.insert(1, Item::Item(5, "A".to_owned()));
    assert_eq!(table.validate(), Err(MenuError::InvalidRoot));
}

#[test]
fn validate_rejects_leaf_root() {
    let mut table = ItemTable::new();
    table.insert(0, Item::Item(5, "A".to_owned()));
    assert_eq!(table.validate(), Err(MenuError::InvalidRoot));
}

#[test]
fn rejected_replacement_keeps_previous_menu() {
    let mut data = DBusMenuData::new(false);
    assert_eq!(data.get_layout_version(), 0);

    let mut good = ItemTable::new();
    good.insert(0, Item::Children(String::new(), vec![1]));
    good.insert(1, Item::Item(3, "A".to_owned()));
    assert!(data.set_items(good).is_ok());
    assert_eq!(data.get_layout_version(), 1);
    assert_eq!(data.emit_click_event(1), Some(3));

    // A table referencing an absent child is rejected; the previous
    // menu and its version stay in effect.
    let mut bad = ItemTable::new();
    bad.insert(0, Item::Children(String::new(), vec![1, 9]));
    bad.insert(1, Item::Item(4, "B".to_owned()));
    assert_eq!(data.set_items(bad), Err(MenuError::MissingChild));
    assert_eq!(data.get_layout_version(), 1);
    assert_eq!(data.emit_click_event(1), Some(3));

    let mut rootless = ItemTable::new();
    rootless.insert(1, Item::Item(4, "B".to_owned()));
    assert_eq!(data.set_items(rootless), Err(MenuError::InvalidRoot));
    assert_eq!(data.get_layout_version(), 1);
}

#[test]
fn version_increments_by_one_per_replacement() {
    let mut menu = DBusMenu::new(false);
    assert_eq!(menu.layout_version(), 0);
    assert!(menu.set_items(empty_root_table()).is_ok());
    assert_eq!(menu.layout_version(), 1);
    assert!(menu.set_items(empty_root_table()).is_ok());
    assert_eq!(menu.layout_version(), 2);
}

#[test]
fn click_resolution_follows_table() {
    let mut data = DBusMenuData::new(false);
    let mut table = ItemTable::new();
    table.insert(0, Item::Children(String::new(), vec![1, 2]));
    table.insert(1, Item::Item(114, "Item 0".to_owned()));
    table.insert(2, Item::Children("Sub Items".to_owned(), vec![3]));
    table.insert(3, Item::Item(514, "Item 2".to_owned()));
    data.set_items(table).unwrap();

    assert_eq!(data.emit_click_event(1), Some(114));
    assert_eq!(data.emit_click_event(3), Some(514));
    // Interior nodes and unknown ids deliver nothing.
    assert_eq!(data.emit_click_event(2), None);
    assert_eq!(data.emit_click_event(0), None);
    assert_eq!(data.emit_click_event(42), None);
}

#[test]
fn text_direction_follows_flag() {
    let ltr = DBusMenuData::new(false);
    let rtl = DBusMenuData::new(true);
    assert_eq!(ltr.get_text_direction(), "ltr");
    assert_eq!(rtl.get_text_direction(), "rtl");
}

#[test]
fn session_set_menu_counts_versions() {
    let mut session =
        NotifierSession::new("app.test", "Title", "icon", false).unwrap();
    assert_eq!(session.layout_version_now(), 0);
    session.set_menu(Some(&vec![leaf("A", 1)])).unwrap();
    assert_eq!(session.layout_version_now(), 1);
    session.set_menu(None).unwrap();
    assert_eq!(session.layout_version_now(), 2);
    session
        .set_menu(Some(&vec![leaf("A", 1), submenu("B", vec![leaf("C", 2)])]))
        .unwrap();
    assert_eq!(session.layout_version_now(), 3);
}

#[test]
fn add_notifier_rejects_overlong_title() {
    let mut registry = NotifierRegistry::new();
    let long_title: String = std::iter::repeat('x').take(200).collect();
    let r = registry.add_notifier("app.test", &long_title, "icon", false);
    assert!(matches!(r, Err(NotifierError::TitleTooLong)));
    assert_eq!(registry.live_count(), 0);
}

#[test]
fn notifier_session_end_to_end() {
    let mut registry = NotifierRegistry::new();
    assert_eq!(registry.live_count(), 0);

    let handle = registry
        .add_notifier("app.test", "Title", "icon", false)
        .unwrap();
    assert_eq!(registry.live_count(), 1);

    registry
        .set_menu(
            handle,
            Some(&vec![leaf("A", 1), submenu("B", vec![leaf("C", 2)])]),
        )
        .unwrap();

    // Preorder ids: 1 = "A", 2 = submenu "B", 3 = leaf "C" (command 2).
    // A simulated click on the leaf with command id 2 delivers 2, once.
    assert_eq!(registry.menu_event(handle, 3), Some(2));
    assert_eq!(registry.menu_event(handle, 1), Some(1));
    assert_eq!(registry.menu_event(handle, 2), None);
    assert!(registry.activate_event(handle));

    // Release tears the session down exactly once; later events for the
    // same handle are silently dropped, and a second release fails.
    assert!(registry.remove_notifier(handle).is_ok());
    assert_eq!(registry.live_count(), 0);
    assert_eq!(registry.menu_event(handle, 3), None);
    assert!(!registry.activate_event(handle));
    assert_eq!(
        registry.remove_notifier(handle).err(),
        Some(HandleError::Stale)
    );

    // Stale set_menu is rejected without touching anything.
    assert!(matches!(
        registry.set_menu(handle, None),
        Err(NotifierError::StaleHandle)
    ));
}

#[test]
fn layout_properties_follow_the_table() {
    let mut data = DBusMenuData::new(false);
    let mut table = ItemTable::new();
    table.insert(0, Item::Children(String::new(), vec![1, 2]));
    table.insert(1, Item::Item(7, "Open".to_owned()));
    table.insert(2, Item::Children("More".to_owned(), vec![3]));
    table.insert(3, Item::Item(8, "Quit".to_owned()));
    data.set_items(table).unwrap();

    let root = data.get_item_properties(0).unwrap();
    assert!(root.is_submenu);
    assert_eq!(root.label, None);
    let leaf = data.get_item_properties(1).unwrap();
    assert!(!leaf.is_submenu);
    assert_eq!(leaf.label.as_deref(), Some("Open"));
    let branch = data.get_item_properties(2).unwrap();
    assert!(branch.is_submenu);
    assert_eq!(branch.label.as_deref(), Some("More"));
    assert!(data.get_item_properties(9).is_none());
}

#[test]
fn get_layout_stamps_version_and_builds_tree() {
    let mut session = NotifierSession::new("app.test", "Title", "icon", false).unwrap();
    let (v0, root0) = session.get_layout(0, -1).unwrap();
    assert_eq!(v0, 0);
    assert!(root0.children.is_empty());

    session
        .set_menu(Some(&vec![leaf("A", 1), submenu("B", vec![leaf("C", 2)])]))
        .unwrap();

    // Querying the layout after one replacement: the version moved up
    // by exactly one and the reply mirrors the tree.
    let (v1, root) = session.get_layout(0, -1).unwrap();
    assert_eq!(v1, v0 + 1);
    assert_eq!(root.id, 0);
    assert!(root.properties.is_submenu);
    assert_eq!(root.properties.label, None);
    assert_eq!(root.children.len(), 2);
    assert_eq!(root.children[0].id, 1);
    assert_eq!(root.children[0].properties.label.as_deref(), Some("A"));
    assert!(root.children[0].children.is_empty());
    let sub = &root.children[1];
    assert_eq!(sub.id, 2);
    assert!(sub.properties.is_submenu);
    assert_eq!(sub.properties.label.as_deref(), Some("B"));
    assert_eq!(sub.children.len(), 1);
    assert_eq!(sub.children[0].id, 3);
    assert_eq!(sub.children[0].properties.label.as_deref(), Some("C"));

    // Depth 0 cuts the children off; an unknown parent answers nothing.
    let (_, shallow) = session.get_layout(0, 0).unwrap();
    assert!(shallow.children.is_empty());
    let (_, one_level) = session.get_layout(0, 1).unwrap();
    assert_eq!(one_level.children.len(), 2);
    assert!(one_level.children[1].children.is_empty());
    assert!(session.get_layout(9, -1).is_none());
}

#[test]
fn clicked_events_only() {
    let mut menu = DBusMenu::new(false);
    let mut table = ItemTable::new();
    table.insert(0, Item::Children(String::new(), vec![1]));
    table.insert(1, Item::Item(42, "A".to_owned()));
    menu.set_items(table).unwrap();
    assert_eq!(menu.event(1, "clicked"), Some(42));
    assert_eq!(menu.event(1, "hovered"), None);
    assert_eq!(menu.event(0, "clicked"), None);
    assert_eq!(menu.protocol_version(), 4);
    assert_eq!(menu.status(), "normal");
}

#[test]
fn wide_command_ids_survive_the_round_trip() {
    let mut registry = NotifierRegistry::new();
    let handle = registry
        .add_notifier("app.test", "Title", "icon", false)
        .unwrap();
    registry
        .set_menu(
            handle,
            Some(&vec![
                leaf("Item 0", 114),
                submenu("Sub Items", vec![leaf("Item 2", 514), leaf("Item 3", 1919)]),
                leaf("Item 3", 810),
            ]),
        )
        .unwrap();
    // Preorder ids 1..=5: top leaf, submenu, its two leaves, last leaf.
    assert_eq!(registry.menu_event(handle, 1), Some(114));
    assert_eq!(registry.menu_event(handle, 3), Some(514));
    assert_eq!(registry.menu_event(handle, 4), Some(1919));
    assert_eq!(registry.menu_event(handle, 5), Some(810));
    assert_eq!(registry.menu_event(handle, 2), None);
    registry.remove_notifier(handle).unwrap();
}
