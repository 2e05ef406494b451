use vstd::prelude::*;

verus! {

/// The application's persisted settings.
#[derive(Debug)]
pub struct AppSettings {
    pub cli_path: Option<String>,
    pub theme: String,
    pub auto_save_enabled: bool,
    pub auto_save_interval_seconds: u32,
    pub default_working_directory: Option<String>,
}

impl Default for AppSettings {
    /// The settings a fresh installation starts with: the dark theme,
    /// saving every thirty seconds, and no paths chosen yet.
    fn default() -> (r: AppSettings)
        ensures
            r.cli_path is None,
            r.theme@ == "dark"@,
            r.auto_save_enabled == true,
            r.auto_save_interval_seconds == 30,
            r.default_working_directory is None,
    {
        AppSettings {
            cli_path: None,
            theme: String::from_str("dark"),
            auto_save_enabled: true,
            auto_save_interval_seconds: 30,
            default_working_directory: None,
        }
    }
}

} // verus!
