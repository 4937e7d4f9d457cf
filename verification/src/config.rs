//! The application configuration and the user preferences, their defaults,
//! and how the start-up outcomes of locating and reading their files settle
//! into the values the application works with.
use crate::models::ProjectRecord;
use crate::text::concat3;
use vstd::prelude::*;

verus! {

/// The application configuration (`app-config`).
pub struct AppConfig {
    pub debug_page: bool,
}

impl Default for AppConfig {
    fn default() -> (r: Self)
        ensures
            r.debug_page == false,
    {
        AppConfig { debug_page: false }
    }
}

/// The value written when no configuration file exists yet.
pub const DEFAULT_DEBUG_PAGE: bool = true;

/// General look settings.
pub struct Settings {
    pub theme: String,
    pub font_size: String,
}

/// Per-project page settings.
pub struct ProjectSettings {
    pub build_status_collapse: bool,
    pub real_time: bool,
}

impl Default for ProjectSettings {
    fn default() -> (r: Self)
        ensures
            r.build_status_collapse == false,
            r.real_time == false,
    {
        ProjectSettings { build_status_collapse: false, real_time: false }
    }
}

/// The side pane. Its width is a 32-bit float in the file; here it is held
/// as that float's bit pattern (`f32::to_bits`).
pub struct SidePane {
    pub width: Option<u32>,
    pub collapsed: bool,
}

/// How the project list is sorted.
pub struct SortConfig {
    pub sort_by: String,
    pub order: String,
}

impl Default for SortConfig {
    fn default() -> (r: Self)
        ensures
            r.sort_by@ == "Title"@,
            r.order@ == "Asc"@,
    {
        SortConfig { sort_by: "Title".to_string(), order: "Asc".to_string() }
    }
}

pub struct ProjectListConfig {
    pub sort: SortConfig,
}

impl Default for ProjectListConfig {
    fn default() -> (r: Self)
        ensures
            r.sort.sort_by@ == "Title"@,
            r.sort.order@ == "Asc"@,
    {
        ProjectListConfig { sort: SortConfig::default() }
    }
}

pub struct Config {
    pub side_pane: SidePane,
    pub project_list: ProjectListConfig,
}

/// The user preferences (`preferences.json`).
pub struct Preferences {
    pub settings: Settings,
    pub project_settings: ProjectSettings,
    pub config: Config,
}

/// The preferences that `Preferences::default` gives.
pub open spec fn is_default_preferences(p: Preferences) -> bool {
    &&& p.settings.theme@ == "system"@
    &&& p.settings.font_size@ == "medium"@
    &&& p.project_settings.build_status_collapse == false
    &&& p.project_settings.real_time == true
    &&& p.config.side_pane.width == None::<u32>
    &&& p.config.side_pane.collapsed == false
    &&& p.config.project_list.sort.sort_by@ == "Title"@
    &&& p.config.project_list.sort.order@ == "Asc"@
}

impl Default for Preferences {
    fn default() -> (r: Self)
        ensures
            is_default_preferences(r),
    {
        Preferences {
            settings: Settings { theme: "system".to_string(), font_size: "medium".to_string() },
            project_settings: ProjectSettings { build_status_collapse: false, real_time: true },
            config: Config {
                side_pane: SidePane { width: None, collapsed: false },
                project_list: ProjectListConfig::default(),
            },
        }
    }
}

/// Settles the start-up configuration from where its file was looked for
/// (`resolved`: the file's location, or why none could be had) and what
/// reading it gave (`loaded`, consulted only when a location was found):
/// the location if any, the configuration (the default one on any error),
/// and the error if any.
pub fn init_app_config<P>(resolved: Result<P, String>, loaded: Result<AppConfig, String>) -> (r: (
    Option<P>,
    AppConfig,
    Option<String>,
))
    ensures
        match resolved {
            Ok(path) => match loaded {
                Ok(c) => r.0 == Some(path) && r.1 == c && r.2 is None,
                Err(e) => r.0 == Some(path) && r.1.debug_page == false && r.2 == Some(e),
            },
            Err(e) => r.0 is None && r.1.debug_page == false && r.2 == Some(e),
        },
{
    match resolved {
        Ok(path) => match loaded {
            Ok(config) => (Some(path), config, None),
            Err(err) => (Some(path), AppConfig::default(), Some(err)),
        },
        Err(err) => (None, AppConfig::default(), Some(err)),
    }
}

/// Settles the start-up preferences in the same way: the location if any,
/// the preferences (the default ones on any error), and the error if any.
pub fn init_preferences<P>(resolved: Result<P, String>, loaded: Result<Preferences, String>) -> (r: (
    Option<P>,
    Preferences,
    Option<String>,
))
    ensures
        match resolved {
            Ok(path) => match loaded {
                Ok(p) => r.0 == Some(path) && r.1 == p && r.2 is None,
                Err(e) => r.0 == Some(path) && is_default_preferences(r.1) && r.2 == Some(e),
            },
            Err(e) => r.0 is None && is_default_preferences(r.1) && r.2 == Some(e),
        },
{
    match resolved {
        Ok(path) => match loaded {
            Ok(prefs) => (Some(path), prefs, None),
            Err(err) => (Some(path), Preferences::default(), Some(err)),
        },
        Err(err) => (None, Preferences::default(), Some(err)),
    }
}

/// Settles the start-up project list: the location if any, the projects
/// (none on any error), and the error if any.
pub fn init_storage<P>(resolved: Result<P, String>, loaded: Result<Vec<ProjectRecord>, String>) -> (r: (
    Option<P>,
    Vec<ProjectRecord>,
    Option<String>,
))
    ensures
        match resolved {
            Ok(path) => match loaded {
                Ok(v) => r.0 == Some(path) && r.1 == v && r.2 is None,
                Err(e) => r.0 == Some(path) && r.1@.len() == 0 && r.2 == Some(e),
            },
            Err(e) => r.0 is None && r.1@.len() == 0 && r.2 == Some(e),
        },
{
    match resolved {
        Ok(path) => match loaded {
            Ok(projects) => (Some(path), projects, None),
            Err(err) => (Some(path), Vec::new(), Some(err)),
        },
        Err(err) => (None, Vec::new(), Some(err)),
    }
}

/// Joins two start-up errors: the second one, if any, is appended to the
/// first on a new line.
pub fn combine_errors(first: Option<String>, second: Option<String>) -> (r: Option<String>)
    ensures
        match second {
            None => r == first,
            Some(b) => match first {
                None => r == Some(b),
                Some(a) => r is Some && r->0@ == a@ + "\n"@ + b@,
            },
        },
{
    match second {
        None => first,
        Some(b) => match first {
            None => Some(b),
            Some(a) => Some(concat3(a.as_str(), "\n", b.as_str())),
        },
    }
}

} // verus!
