// Wide-string encoding, command-line quoting, descriptor inheritance,
// and the small helpers around them.

use compat::notifier::{menu_choice, tray_message_action, TrayAction, TrayMessage, NIN_SELECT,
    WM_CONTEXTMENU_EVENT};
use compat::notifier_item::NotifierItem;
use compat::process::{fd_is_inherited, stdio_redirections};
use compat::prop::WindowProp;
use compat::strings::{join_arguments, join_command_line, str_eq, StringError, Win32StringFromExt,
    Win32StringIntoExt};

#[test]
fn utf16_encoding_appends_nul() {
    assert_eq!("AB".to_owned().to_win32_utf16(), vec![65, 66, 0]);
    assert_eq!("".to_owned().to_win32_utf16(), vec![0]);
}

#[test]
fn utf16_encoding_uses_surrogate_pairs() {
    // U+1F600 encodes as the surrogate pair D83D DE00.
    let wide = "\u{1F600}".to_owned().to_win32_utf16();
    assert_eq!(wide, vec![0xD83D, 0xDE00, 0]);
}

#[test]
fn join_arguments_quotes_and_separates() {
    assert_eq!(join_arguments(&[]), "");
    assert_eq!(
        join_arguments(&["a".to_owned(), "b c".to_owned()]),
        "\"a\" \"b c\" "
    );
    assert_eq!(join_arguments(&["x\"y".to_owned()]), "\"x\\\"y\" ");
}

#[test]
fn join_command_line_quotes_executable_and_arguments() {
    assert_eq!(join_command_line("prog", &[]), "\"prog\"");
    assert_eq!(
        join_command_line("/usr/bin/app", &["--flag".to_owned(), "a b".to_owned()]),
        "\"/usr/bin/app\" \"--flag\" \"a b\""
    );
    assert_eq!(join_command_line("he\"llo", &[]), "\"he\\\"llo\"");
}

#[test]
fn text_equality_is_character_wise() {
    assert!(str_eq("abc", "abc"));
    assert!(!str_eq("abc", "abd"));
    assert!(!str_eq("abc", "ab"));
    assert!(str_eq("", ""));
}

#[test]
fn child_inherits_only_allow_listed_descriptors() {
    let extra = vec![7, 9];
    // The executable's descriptor and the three standard streams.
    assert!(fd_is_inherited(5, 5, &extra));
    assert!(fd_is_inherited(0, 5, &extra));
    assert!(fd_is_inherited(1, 5, &extra));
    assert!(fd_is_inherited(2, 5, &extra));
    // The caller's extra descriptors.
    assert!(fd_is_inherited(7, 5, &extra));
    assert!(fd_is_inherited(9, 5, &extra));
    // Everything else is withheld.
    assert!(!fd_is_inherited(8, 5, &extra));
    assert!(!fd_is_inherited(3, 5, &extra));
}

#[test]
fn standard_streams_default_to_null_device() {
    let plan = stdio_redirections(Some(11), None, Some(13), 99);
    assert_eq!(plan, vec![(11, 0), (99, 1), (13, 2)]);
    let all_null = stdio_redirections(None, None, None, 42);
    assert_eq!(all_null, vec![(42, 0), (42, 1), (42, 2)]);
}

#[test]
fn notifier_item_publishes_its_properties() {
    let mut item = NotifierItem::new("app.test", "Title", "icon-name");
    assert_eq!(item.id(), "app.test");
    assert_eq!(item.title(), "Title");
    assert_eq!(item.icon_name(), "icon-name");
    let (tip_icon, pixmaps, tip_text, description) = item.tool_tip();
    assert_eq!(tip_icon, "");
    assert!(pixmaps.is_empty());
    assert_eq!(tip_text, "Title");
    assert_eq!(description, "");
    item.set_menu_available(true);
    assert_eq!(item.title(), "Title");
}

#[test]
fn tray_messages_route_to_listener_or_menu() {
    let select = TrayMessage::Callback { event: NIN_SELECT, x: 10, y: 20 };
    assert_eq!(
        tray_message_action(true, true, false, &select),
        TrayAction::DeliverActivate
    );
    let context = TrayMessage::Callback { event: WM_CONTEXTMENU_EVENT, x: 10, y: 20 };
    assert_eq!(
        tray_message_action(true, true, true, &context),
        TrayAction::ShowMenu { x: 10, y: 20, align_right: true }
    );
    // Without a stored menu the context request does nothing; without
    // listener state everything falls through to default handling.
    assert_eq!(
        tray_message_action(true, false, true, &context),
        TrayAction::Nothing
    );
    assert_eq!(
        tray_message_action(false, true, true, &select),
        TrayAction::Nothing
    );
    assert_eq!(
        tray_message_action(true, true, false, &TrayMessage::Destroy),
        TrayAction::Cleanup
    );
    assert_eq!(menu_choice(514), Some(514));
    assert_eq!(menu_choice(0), None);
}

#[test]
fn window_prop_keeps_its_key() {
    let prop: WindowProp<u64> = WindowProp::new("compat-context");
    assert_eq!(prop.key(), "compat-context");
}

#[test]
fn utf16_decode_stops_at_nul() {
    let decoded = String::from_win32_utf16(&[72, 105, 0, 99, 99]).unwrap();
    assert_eq!(decoded, "Hi");
    // A surrogate pair survives the round trip.
    let wide = "a\u{1F600}".to_owned().to_win32_utf16();
    assert_eq!(String::from_win32_utf16(&wide).unwrap(), "a\u{1F600}");
    // Without a terminating NUL nothing is decoded.
    assert_eq!(String::from_win32_utf16(&[72, 105]).unwrap(), "");
}

#[test]
fn utf16_decode_rejects_lone_surrogate() {
    assert_eq!(
        String::from_win32_utf16(&[0xD83D, 0]),
        Err(StringError::InvalidUtf16)
    );
}
