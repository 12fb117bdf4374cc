// Hit testing, the window-tracking table, and both interceptors'
// decisions.

use compat::window::{
    delegated_window_message, delegated_x_event, dispatch_window_message, Context, EventAction,
    Hints, MessageAction, Rectangle, WindowEvent, WindowHints, WindowMessage, WindowTable,
    BUTTON_PRIMARY, BUTTON_SECONDARY, FRAME_EDGE_INSETS, FRAME_TITLE_BAR, HTBOTTOMRIGHT,
    HTCAPTION, HTCLIENT, HTRIGHT, HTTOPLEFT,
};

fn sample_context() -> Context {
    // A 200 x 100 window at the origin, 5 px resize insets, a 30 px
    // title bar, and one excluded control rectangle in its top-right
    // corner (window-control buttons).
    let mut c = Context::new(
        77,
        Rectangle { left: 0, top: 0, right: 200, bottom: 100 },
    );
    c.set_frame_size(FRAME_EDGE_INSETS, 5);
    c.set_frame_size(FRAME_TITLE_BAR, 30);
    c.set_control_position(0, 150, 0, 190, 25);
    c
}

#[test]
fn hit_test_excluded_rectangle_wins_over_edges() {
    let c = sample_context();
    // Strictly inside the control rectangle, although within the top
    // inset: plain client area, no drag and no resize.
    assert_eq!(c.match_client_area(160, 2), HTCLIENT);
    assert_eq!(c.match_client_area(155, 10), HTCLIENT);
}

#[test]
fn hit_test_corners_and_edges() {
    let c = sample_context();
    assert_eq!(c.match_client_area(2, 3), HTTOPLEFT);
    assert_eq!(c.match_client_area(197, 97), HTBOTTOMRIGHT);
    assert_eq!(c.match_client_area(197, 50), HTRIGHT);
}

#[test]
fn hit_test_caption_band() {
    let c = sample_context();
    // Clear of every edge and of the excluded rectangle, above the
    // title-bar height: draggable caption.
    assert_eq!(c.match_client_area(100, 10), HTCAPTION);
    // Below the title bar: plain client area.
    assert_eq!(c.match_client_area(100, 50), HTCLIENT);
}

#[test]
fn hit_test_translates_screen_coordinates() {
    let mut c = sample_context();
    c.set_position(Rectangle { left: 1000, top: 500, right: 1200, bottom: 600 });
    assert_eq!(c.match_client_area(1100, 510), HTCAPTION);
    assert_eq!(c.match_client_area(1002, 503), HTTOPLEFT);
}

#[test]
fn title_bar_test_excludes_controls_and_insets() {
    let c = sample_context();
    assert!(c.is_match_title_bar(100, 10));
    // Strictly inside the control rectangle.
    assert!(!c.is_match_title_bar(155, 10));
    // Within the horizontal inset (a resize region, not the caption).
    assert!(!c.is_match_title_bar(2, 10));
    // Below the title bar.
    assert!(!c.is_match_title_bar(100, 40));
}

#[test]
fn caption_test_agrees_with_shared_hit_test() {
    // One hit-test classification serves both interceptors: the
    // caption test answers true exactly where the window procedure's
    // hit test answers the caption code (the context sits at the
    // origin, so window-local and screen coordinates coincide).
    let c = sample_context();
    for &(x, y) in &[
        (100, 10),
        (155, 10),
        (150, 10),
        (2, 10),
        (100, 40),
        (2, 3),
        (197, 50),
        (160, 2),
    ] {
        assert_eq!(
            c.is_match_title_bar(x, y),
            c.match_client_area(x, y) == HTCAPTION,
            "disagreement at ({x}, {y})"
        );
    }
}

#[test]
fn hints_setters_reach_the_context() {
    let mut hints = Hints { context: sample_context() };
    hints.set_control_position(1, 0, 0, 40, 25);
    hints.set_frame_size(FRAME_TITLE_BAR, 50);
    assert_eq!(hints.context.match_client_area(20, 10), HTCLIENT);
    assert_eq!(hints.context.match_client_area(100, 40), HTCAPTION);
}

#[test]
fn table_tracks_windows_until_destroyed() {
    let mut table = WindowTable::new();
    let ctx = sample_context();
    let slot = table.add_context(ctx);
    table.store_window(77, slot);
    table.store_window(78, slot);
    // Re-registration keeps the existing association.
    table.store_window(77, slot);
    assert_eq!(table.tracked_window_count(), 2);
    assert_eq!(table.find_tracking_window(77), Some(slot));
    assert_eq!(table.find_tracking_window(78), Some(slot));
    assert_eq!(table.find_tracking_window(79), None);

    table.remove_window(77);
    assert_eq!(table.find_tracking_window(77), None);
    assert_eq!(table.tracked_window_count(), 1);
    table.remove_window(78);
    assert_eq!(table.tracked_window_count(), 0);
}

#[test]
fn x_event_caption_press_becomes_move_drag() {
    let mut table = WindowTable::new();
    let slot = table.add_context(sample_context());
    table.store_window(77, slot);

    let press = WindowEvent::ButtonPress {
        window: 77,
        button: BUTTON_PRIMARY,
        x: 100,
        y: 10,
        x_root: 400,
        y_root: 300,
    };
    assert_eq!(
        delegated_x_event(&mut table, &press),
        EventAction::BeginMoveDrag { root: 77, x_root: 400, y_root: 300 }
    );

    // The matching release is swallowed so the toolkit never sees the
    // caption click.
    let release = WindowEvent::ButtonRelease {
        window: 77,
        button: BUTTON_PRIMARY,
        x: 100,
        y: 10,
        x_root: 400,
        y_root: 300,
    };
    assert_eq!(delegated_x_event(&mut table, &release), EventAction::Suppress);

    // A secondary release over the caption opens the window menu.
    let menu = WindowEvent::ButtonRelease {
        window: 77,
        button: BUTTON_SECONDARY,
        x: 100,
        y: 10,
        x_root: 401,
        y_root: 301,
    };
    assert_eq!(
        delegated_x_event(&mut table, &menu),
        EventAction::ShowWindowMenu { root: 77, x_root: 401, y_root: 301 }
    );

    // Clicks outside the caption, and on untracked windows, pass through.
    let client = WindowEvent::ButtonPress {
        window: 77,
        button: BUTTON_PRIMARY,
        x: 100,
        y: 60,
        x_root: 0,
        y_root: 0,
    };
    assert_eq!(delegated_x_event(&mut table, &client), EventAction::Forward);
    let untracked = WindowEvent::ButtonPress {
        window: 99,
        button: BUTTON_PRIMARY,
        x: 100,
        y: 10,
        x_root: 0,
        y_root: 0,
    };
    assert_eq!(delegated_x_event(&mut table, &untracked), EventAction::Forward);
}

#[test]
fn x_event_configure_and_destroy_maintain_table() {
    let mut table = WindowTable::new();
    let slot = table.add_context(sample_context());
    table.store_window(77, slot);

    let grow = WindowEvent::Configure { window: 77, width: 400, height: 300 };
    assert_eq!(delegated_x_event(&mut table, &grow), EventAction::Forward);
    // The caption band now reaches the new width.
    assert!(table.get_context(slot).is_match_title_bar(350, 10));

    let destroy = WindowEvent::Destroy { window: 77 };
    assert_eq!(delegated_x_event(&mut table, &destroy), EventAction::Forward);
    assert_eq!(table.find_tracking_window(77), None);
    assert_eq!(table.tracked_window_count(), 0);
}

#[test]
fn window_message_hit_tests_root_and_children() {
    let mut root_ctx = sample_context();
    let caption = WindowMessage::NcHitTest { x: 100, y: 10 };
    assert_eq!(
        delegated_window_message(&mut root_ctx, true, &caption),
        MessageAction::ReturnHit { code: HTCAPTION }
    );

    // The same hit on a registered child window answers transparent, so
    // the click falls through to the root.
    let mut child_ctx = sample_context();
    assert_eq!(
        delegated_window_message(&mut child_ctx, false, &caption),
        MessageAction::ReturnTransparent
    );
    let client = WindowMessage::NcHitTest { x: 100, y: 50 };
    assert_eq!(
        delegated_window_message(&mut child_ctx, false, &client),
        MessageAction::ReturnHit { code: HTCLIENT }
    );
}

#[test]
fn window_message_frame_and_menu_decisions() {
    let mut ctx = sample_context();
    let calc = WindowMessage::NcCalcSize {
        client_area_requested: true,
        maximized: true,
        padded_border: 8,
    };
    assert_eq!(
        delegated_window_message(&mut ctx, true, &calc),
        MessageAction::AdjustTopInset { padding: 8 }
    );
    let calc_restored = WindowMessage::NcCalcSize {
        client_area_requested: true,
        maximized: false,
        padded_border: 8,
    };
    assert_eq!(
        delegated_window_message(&mut ctx, true, &calc_restored),
        MessageAction::AdjustTopInset { padding: 0 }
    );
    assert_eq!(
        delegated_window_message(&mut ctx, false, &calc),
        MessageAction::CallPrevious
    );

    let down = WindowMessage::NcRButtonDown { hit: HTCAPTION };
    assert_eq!(
        delegated_window_message(&mut ctx, true, &down),
        MessageAction::SuppressDefault
    );
    let up = WindowMessage::NcRButtonUp { hit: HTCAPTION, x: 40, y: 12 };
    assert_eq!(
        delegated_window_message(&mut ctx, true, &up),
        MessageAction::ShowSystemMenu { x: 40, y: 12 }
    );
    let up_client = WindowMessage::NcRButtonUp { hit: HTCLIENT, x: 40, y: 12 };
    assert_eq!(
        delegated_window_message(&mut ctx, true, &up_client),
        MessageAction::CallPrevious
    );

    let sys = WindowMessage::Command { wparam: 0xf060 };
    assert_eq!(
        delegated_window_message(&mut ctx, true, &sys),
        MessageAction::ForwardAsSysCommand
    );
    let plain = WindowMessage::Command { wparam: 0x0042 };
    assert_eq!(
        delegated_window_message(&mut ctx, true, &plain),
        MessageAction::CallPrevious
    );
    assert_eq!(
        delegated_window_message(&mut ctx, true, &WindowMessage::SysCommand),
        MessageAction::DefaultOnRoot
    );
    assert_eq!(
        delegated_window_message(&mut ctx, true, &WindowMessage::Destroy),
        MessageAction::DetachAndCallPrevious
    );
}

#[test]
fn window_message_bounds_refresh_root_only() {
    let mut ctx = sample_context();
    let moved = WindowMessage::BoundsChanged {
        bounds: Rectangle { left: 50, top: 60, right: 250, bottom: 160 },
    };
    assert_eq!(
        delegated_window_message(&mut ctx, true, &moved),
        MessageAction::CallPrevious
    );
    assert_eq!(ctx.match_client_area(150, 70), HTCAPTION);
}

#[test]
fn message_dispatch_passes_untracked_windows_through() {
    let mut table = WindowTable::new();
    let slot = table.add_context(sample_context());
    table.store_window(77, slot);
    table.store_window(78, slot);

    // An untracked window chains to the previous procedure untouched.
    let caption = WindowMessage::NcHitTest { x: 100, y: 10 };
    assert_eq!(
        dispatch_window_message(&mut table, 99, &caption),
        MessageAction::CallPrevious
    );
    assert_eq!(table.tracked_window_count(), 2);

    // The root answers the hit code; a registered child answers
    // transparent for the same caption point.
    assert_eq!(
        dispatch_window_message(&mut table, 77, &caption),
        MessageAction::ReturnHit { code: HTCAPTION }
    );
    assert_eq!(
        dispatch_window_message(&mut table, 78, &caption),
        MessageAction::ReturnTransparent
    );

    // A size change refreshes the shared bounds, and destruction
    // detaches the window while the sibling stays tracked.
    let moved = WindowMessage::BoundsChanged {
        bounds: Rectangle { left: 50, top: 60, right: 250, bottom: 160 },
    };
    assert_eq!(
        dispatch_window_message(&mut table, 77, &moved),
        MessageAction::CallPrevious
    );
    assert_eq!(
        dispatch_window_message(&mut table, 77, &WindowMessage::NcHitTest { x: 150, y: 70 }),
        MessageAction::ReturnHit { code: HTCAPTION }
    );
    assert_eq!(
        dispatch_window_message(&mut table, 78, &WindowMessage::Destroy),
        MessageAction::DetachAndCallPrevious
    );
    assert_eq!(table.find_tracking_window(78), None);
    assert_eq!(table.find_tracking_window(77), Some(slot));
}
