//! Verified core of a native compatibility layer for a managed desktop
//! application: opaque-handle lifecycle for native resources, a scoped
//! cleanup guard, window hit-testing and event-interception decisions,
//! the tray-notifier menu protocol with its version-stamped layout table,
//! a debounced theme watcher, and the process launcher's descriptor
//! inheritance rules.
//!
//! Platform plumbing (D-Bus, X11, Win32, JNI marshaling) stays outside;
//! this crate holds the decision and data logic those backends share,
//! with contracts checked by Verus.

pub mod dbus_menu;
pub mod handle;
pub mod menu;
pub mod notifier;
pub mod notifier_item;
pub mod process;
pub mod prop;
pub mod scoped;
pub mod strings;
pub mod theme;
pub mod window;
