// Dark-mode detection and the debounced watcher.

use compat::theme::{
    color_is_night, is_night_mode, is_supported, ThemeError, ThemeWatcher,
};

#[test]
fn test_is_supported() {
    assert!(is_supported(&is_night_mode(Some(1))))
}

#[test]
fn test_is_night() {
    println!("is_night = {}", is_night_mode(Some(1)).unwrap());
    assert_eq!(is_night_mode(Some(1)), Ok(true));
    assert_eq!(is_night_mode(Some(0)), Ok(false));
    assert_eq!(is_night_mode(Some(2)), Ok(false));
}

#[test]
fn unreadable_scheme_is_unsupported() {
    let probe = is_night_mode(None);
    assert_eq!(probe, Err(ThemeError::UnexpectedReply));
    assert!(!is_supported(&probe));
}

#[test]
fn watcher_debounces_repeated_events() {
    // Raw platform events alternating [true, true, false, false, true]
    // from an initial day state: only the three genuine flips reach the
    // listener, with values [true, false, true].
    let mut watcher = ThemeWatcher::new(false);
    let events = vec![true, true, false, false, true];
    let mut delivered: Vec<(usize, bool)> = Vec::new();
    for (i, e) in events.iter().enumerate() {
        if let Some(v) = watcher.observe(*e) {
            delivered.push((i, v));
        }
    }
    assert_eq!(delivered, vec![(0, true), (2, false), (4, true)]);
}

#[test]
fn watcher_observe_all_collects_deliveries() {
    let mut watcher = ThemeWatcher::new(false);
    let delivered = watcher.observe_all(&vec![true, true, false, false, true]);
    assert_eq!(delivered, vec![true, false, true]);

    // Starting from night, the leading flip disappears.
    let mut watcher = ThemeWatcher::new(true);
    let delivered = watcher.observe_all(&vec![true, true, false, false, true]);
    assert_eq!(delivered, vec![false, true]);
}

#[test]
fn watcher_filters_foreign_settings() {
    let mut watcher = ThemeWatcher::new(false);
    assert_eq!(
        watcher.on_setting_changed("org.freedesktop.appearance", "color-scheme", Some(1)),
        Some(true)
    );
    // Repeated identical notification: suppressed.
    assert_eq!(
        watcher.on_setting_changed("org.freedesktop.appearance", "color-scheme", Some(1)),
        None
    );
    // Foreign namespace, foreign key, or a reply of the wrong shape:
    // ignored without touching the state.
    assert_eq!(
        watcher.on_setting_changed("org.gnome.desktop", "color-scheme", Some(0)),
        None
    );
    assert_eq!(
        watcher.on_setting_changed("org.freedesktop.appearance", "accent-color", Some(0)),
        None
    );
    assert_eq!(
        watcher.on_setting_changed("org.freedesktop.appearance", "color-scheme", None),
        None
    );
    // The genuine flip still comes through afterwards.
    assert_eq!(
        watcher.on_setting_changed("org.freedesktop.appearance", "color-scheme", Some(2)),
        Some(false)
    );
}

#[test]
fn foreground_luminance_test() {
    // Bright foreground means a dark theme.
    assert!(color_is_night(255, 255, 255));
    assert!(!color_is_night(0, 0, 0));
    // 5*G + 2*R + B against 1024: just over and just under.
    assert!(color_is_night(0, 205, 0));
    assert!(!color_is_night(0, 204, 0));
}
