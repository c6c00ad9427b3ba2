//! The application's own settings.
use vstd::prelude::*;

verus! {

broadcast use vstd::string::group_string_axioms;

/// Window size, selected panel, palette name and live-preview preference.
#[derive(Debug, Clone, PartialEq, Eq)]
pub struct AppConfig {
    /// Active palette name.
    pub palette: String,
    /// Default window width.
    pub window_width: u32,
    /// Default window height.
    pub window_height: u32,
    /// Last selected sidebar panel index.
    pub last_panel: usize,
    /// Apply changes via IPC immediately.
    pub live_preview: bool,
}

impl AppConfig {
    pub open spec fn is_default(&self) -> bool {
        &&& self.palette@ == "default"@
        &&& self.window_width == 900
        &&& self.window_height == 640
        &&& self.last_panel == 0
        &&& self.live_preview
    }

    /// The settings a configuration file gives, or the defaults when it is
    /// missing or cannot be read.
    pub fn load(parsed: Option<AppConfig>) -> (r: AppConfig)
        ensures
            match parsed {
                Some(c) => r == c,
                None => r.is_default(),
            },
    {
        match parsed {
            Some(c) => c,
            None => AppConfig::default(),
        }
    }
}

impl Default for AppConfig {
    fn default() -> (r: Self)
        ensures
            r.is_default(),
    {
        AppConfig {
            palette: "default".to_string(),
            window_width: 900,
            window_height: 640,
            last_panel: 0,
            live_preview: true,
        }
    }
}

} // verus!
