//! Verified core of the NET Control Center desktop shell: which hosts the
//! embedded dashboard may navigate to, how stored settings are cleaned up,
//! and how menu commands are dispatched.
pub mod text;
pub mod hosts;
pub mod navigation;
pub mod settings;
pub mod menu;

pub use hosts::{is_allowed_host, normalize_allowed_hosts};
pub use navigation::{NavigationUrl, is_allowed_navigation, is_allowed_navigation_url};
pub use settings::{Settings, normalize_settings, with_target_url, loaded_or_default};
pub use menu::{MenuAction, MenuEntry, menu_action, app_menu_entries, tray_menu_entries};
