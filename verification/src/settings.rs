//! The application settings record. Reading and writing the settings file
//! happens at the edge; here stand the record itself and the default that a
//! missing file falls back to.

use vstd::prelude::*;

verus! {

/// The persisted user settings.
pub struct AppSettings {
    pub theme: String,
    pub minimize_to_tray: bool,
    pub show_notifications: bool,
    pub window_width: Option<u32>,
    pub window_height: Option<u32>,
    pub window_x: Option<i32>,
    pub window_y: Option<i32>,
}

impl Default for AppSettings {
    /// The settings a fresh installation starts with.
    fn default() -> (r: Self)
        ensures
            r.theme@ == Seq::<char>::empty(),
            !r.minimize_to_tray,
            !r.show_notifications,
            r.window_width is None,
            r.window_height is None,
            r.window_x is None,
            r.window_y is None,
    {
        AppSettings {
            theme: String::new(),
            minimize_to_tray: false,
            show_notifications: false,
            window_width: None,
            window_height: None,
            window_x: None,
            window_y: None,
        }
    }
}

/// The settings to use for a loaded file: its contents when it existed, the
/// defaults when it did not.
pub fn settings_or_default(loaded: Option<AppSettings>) -> (r: AppSettings)
    ensures
        loaded matches Some(s) ==> r == s,
        loaded is None ==> r.theme@ == Seq::<char>::empty() && !r.minimize_to_tray
            && !r.show_notifications && r.window_width is None && r.window_height is None
            && r.window_x is None && r.window_y is None,
{
    match loaded {
        Some(s) => s,
        None => AppSettings::default(),
    }
}

} // verus!
