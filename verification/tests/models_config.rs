use build_bridge::config::{
    combine_errors, init_app_config, init_preferences, init_storage, AppConfig, Preferences,
    ProjectListConfig, ProjectSettings, SortConfig,
};
use build_bridge::models::{BuildEntry, CreateProjectForm, ProjectRecord, ProjectType};
use build_bridge::settings::{
    sync_preferences, view_settings_from, AppThemeMode, ProjectSortBy, ProjectSortOrder,
    ViewSettings, DEFAULT_SIDEBAR_WIDTH_BITS,
};
use build_bridge::text::{
    compare_str, contains, decimal_string, eq_ignore_ascii_case, lowercase, starts_with,
    to_ascii_lower, trim,
};

#[test]
fn project_type_labels() {
    assert_eq!(ProjectType::Android.label(), "Android Studio");
    assert_eq!(ProjectType::Flutter.label(), "Flutter");
    assert_eq!(ProjectType::DotNet.label(), ".NET");
    assert_eq!(ProjectType::Python.label(), "Python");
    assert_eq!(ProjectType::ReactNative.label(), "React Native");
    assert_eq!(ProjectType::DotNet.storage_value(), ".NET");
    assert_eq!(
        ProjectType::all(),
        [
            ProjectType::Android,
            ProjectType::Flutter,
            ProjectType::DotNet,
            ProjectType::Python,
            ProjectType::ReactNative
        ]
    );
    assert_eq!(ProjectType::default(), ProjectType::Android);
}

#[test]
fn project_type_from_storage_spellings() {
    assert_eq!(ProjectType::from_storage("  Android "), Some(ProjectType::Android));
    assert_eq!(ProjectType::from_storage("ANDROID STUDIO"), Some(ProjectType::Android));
    assert_eq!(ProjectType::from_storage("flutter"), Some(ProjectType::Flutter));
    assert_eq!(ProjectType::from_storage(".net"), Some(ProjectType::DotNet));
    assert_eq!(ProjectType::from_storage("DotNet"), Some(ProjectType::DotNet));
    assert_eq!(ProjectType::from_storage("Python\n"), Some(ProjectType::Python));
    assert_eq!(ProjectType::from_storage("react-native"), Some(ProjectType::ReactNative));
    assert_eq!(ProjectType::from_storage("React Native"), Some(ProjectType::ReactNative));
    assert_eq!(ProjectType::from_storage("kotlin"), None);
    assert_eq!(ProjectType::from_storage(""), None);
    assert_eq!(ProjectType::from_storage("react  native"), None);
}

#[test]
fn storage_value_reads_back() {
    for t in ProjectType::all() {
        assert_eq!(ProjectType::from_storage(t.storage_value()), Some(t));
    }
}

#[test]
fn text_helpers() {
    assert_eq!(trim("\u{a0}\t hi there \u{3000}"), "hi there");
    assert_eq!(trim("   "), "");
    assert_eq!(to_ascii_lower("AbC-É"), "abc-É");
    assert!(contains("hello world", "o w"));
    assert!(contains("abc", ""));
    assert!(!contains("abc", "abcd"));
    assert!(starts_with("https://x", "https://"));
    assert!(!starts_with("http", "https"));
    assert_eq!(compare_str("abc", "abd"), -1);
    assert_eq!(compare_str("b", "abc"), 1);
    assert_eq!(compare_str("ab", "ab"), 0);
    assert_eq!(compare_str("ab", "abc"), -1);
    assert_eq!(decimal_string(0), "0");
    assert_eq!(decimal_string(10450), "10450");
    assert!(eq_ignore_ascii_case("MyApp", "myapp"));
    assert!(!eq_ignore_ascii_case("MyApp", "myapq"));
    assert_eq!(lowercase("ÄB Title"), "äb title");
}

#[test]
fn default_preferences() {
    let p = Preferences::default();
    assert_eq!(p.settings.theme, "system");
    assert_eq!(p.settings.font_size, "medium");
    assert!(!p.project_settings.build_status_collapse);
    assert!(p.project_settings.real_time);
    assert_eq!(p.config.side_pane.width, None);
    assert!(!p.config.side_pane.collapsed);
    assert_eq!(p.config.project_list.sort.sort_by, "Title");
    assert_eq!(p.config.project_list.sort.order, "Asc");
    let s = SortConfig::default();
    assert_eq!((s.sort_by.as_str(), s.order.as_str()), ("Title", "Asc"));
    let l = ProjectListConfig::default();
    assert_eq!(l.sort.sort_by, "Title");
    let ps = ProjectSettings::default();
    assert!(!ps.real_time && !ps.build_status_collapse);
    assert!(!AppConfig::default().debug_page);
}

#[test]
fn startup_outcomes_settle() {
    let (p, c, e) = init_app_config(Ok("cfg"), Ok(AppConfig { debug_page: true }));
    assert_eq!(p, Some("cfg"));
    assert!(c.debug_page);
    assert_eq!(e, None);
    let (p, c, e) = init_app_config(Ok("cfg"), Err("bad json".to_string()));
    assert_eq!(p, Some("cfg"));
    assert!(!c.debug_page);
    assert_eq!(e, Some("bad json".to_string()));
    let (p, c, e) = init_app_config::<&str>(Err("no dir".to_string()), Ok(AppConfig { debug_page: true }));
    assert_eq!(p, None);
    assert!(!c.debug_page);
    assert_eq!(e, Some("no dir".to_string()));

    let (p, prefs, e) = init_preferences(Ok(1u8), Err("x".to_string()));
    assert_eq!(p, Some(1u8));
    assert_eq!(prefs.settings.theme, "system");
    assert_eq!(e, Some("x".to_string()));

    let (p, projects, e) = init_storage::<u8>(Err("gone".to_string()), Ok(Vec::new()));
    assert_eq!(p, None);
    assert!(projects.is_empty());
    assert_eq!(e, Some("gone".to_string()));
}

#[test]
fn errors_combine_on_new_lines() {
    assert_eq!(combine_errors(Some("a".into()), Some("b".into())), Some("a\nb".to_string()));
    assert_eq!(combine_errors(None, Some("b".into())), Some("b".to_string()));
    assert_eq!(combine_errors(Some("a".into()), None), Some("a".to_string()));
    assert_eq!(combine_errors(None, None), None);
}

#[test]
fn sort_preferences_read() {
    assert_eq!(ProjectSortBy::from_pref("Date Created"), ProjectSortBy::DateCreated);
    assert_eq!(ProjectSortBy::from_pref("created"), ProjectSortBy::DateCreated);
    assert_eq!(ProjectSortBy::from_pref("DATE_CREATED"), ProjectSortBy::DateCreated);
    assert_eq!(ProjectSortBy::from_pref("TYPE"), ProjectSortBy::ProjectType);
    assert_eq!(ProjectSortBy::from_pref("project_type"), ProjectSortBy::ProjectType);
    assert_eq!(ProjectSortBy::from_pref("whatever"), ProjectSortBy::Title);
    assert_eq!(ProjectSortOrder::from_pref("Descending"), ProjectSortOrder::Desc);
    assert_eq!(ProjectSortOrder::from_pref("DESC"), ProjectSortOrder::Desc);
    assert_eq!(ProjectSortOrder::from_pref("up"), ProjectSortOrder::Asc);
    assert_eq!(AppThemeMode::from_pref("Dark"), AppThemeMode::Dark);
    assert_eq!(AppThemeMode::from_pref("LIGHT"), AppThemeMode::Light);
    assert_eq!(AppThemeMode::from_pref("blue"), AppThemeMode::System);
    assert_eq!(ProjectSortBy::Title.label(), "Project Title");
    assert_eq!(ProjectSortOrder::Desc.label(), "Descending");
    assert_eq!(ProjectSortBy::ProjectType.as_pref(), "Project Type");
    assert_eq!(ProjectSortOrder::Asc.as_pref(), "Asc");
    assert_eq!(AppThemeMode::Light.as_pref(), "light");
}

#[test]
fn view_settings_from_default_preferences() {
    let s = view_settings_from(&Preferences::default());
    assert_eq!(
        s,
        ViewSettings {
            theme_mode: AppThemeMode::System,
            sidebar_width_bits: DEFAULT_SIDEBAR_WIDTH_BITS,
            sidebar_visible: true,
            bridge_status_expanded: true,
            real_time_enabled: true,
            sort_by: ProjectSortBy::Title,
            sort_order: ProjectSortOrder::Asc,
        }
    );
    assert_eq!(f32::from_bits(DEFAULT_SIDEBAR_WIDTH_BITS), 260.0f32);
}

#[test]
fn sync_then_read_gives_back_settings() {
    let mut p = Preferences::default();
    let s = ViewSettings {
        theme_mode: AppThemeMode::Dark,
        sidebar_width_bits: 300.5f32.to_bits(),
        sidebar_visible: false,
        bridge_status_expanded: false,
        real_time_enabled: false,
        sort_by: ProjectSortBy::DateCreated,
        sort_order: ProjectSortOrder::Desc,
    };
    assert!(sync_preferences(&mut p, &s));
    assert_eq!(p.settings.theme, "dark");
    assert_eq!(p.config.project_list.sort.sort_by, "Date Created");
    assert_eq!(p.config.project_list.sort.order, "Desc");
    assert!(p.config.side_pane.collapsed);
    assert!(p.project_settings.build_status_collapse);
    assert_eq!(view_settings_from(&p), s);
    assert!(!sync_preferences(&mut p, &s));
}

#[test]
fn form_and_records_build() {
    let f = CreateProjectForm::default();
    assert_eq!((f.name.as_str(), f.main_path.as_str(), f.project_type), ("", "", ProjectType::Android));
    let b = BuildEntry { name: "a.apk".into(), path: "/x/a.apk".into(), created_on: None, starred: true };
    let d = b.duplicate();
    assert_eq!((d.name, d.path, d.created_on, d.starred), (b.name, b.path, b.created_on, b.starred));
    let p = ProjectRecord {
        name: "N".into(),
        project_type: "Flutter".into(),
        main_path: "/p".into(),
        builds: vec![],
        added_file: Some("/extra".into()),
        stream_type: None,
        star: None,
        status: "active".into(),
        created_on: "2024-01-01".into(),
        edited_on: "2024-01-02".into(),
    };
    let q = p.duplicate();
    assert_eq!(q.added_file, Some("/extra".to_string()));
    assert_eq!(q.edited_on, "2024-01-02");
}

