use build_bridge::bridge::{content_type_for, unique_destination};
use build_bridge::builds::{extension_of, file_facts, file_name_of};
use build_bridge::config::Preferences;
use build_bridge::dashboard::DashboardState;
use build_bridge::listing::Nav;
use build_bridge::models::{BuildEntry, CreateProjectForm, ProjectRecord, ProjectType};
use build_bridge::settings::{
    float_bits_equal, sync_preferences, view_settings_from, ProjectSortBy, ProjectSortOrder,
};
use build_bridge::store::{ModalMode, ProjectStore};

fn project(name: &str) -> ProjectRecord {
    ProjectRecord {
        name: name.into(),
        project_type: "Android Studio".into(),
        main_path: format!("/w/{name}"),
        builds: vec![
            BuildEntry { name: "a.apk".into(), path: "/o/a.apk".into(), created_on: None, starred: false },
            BuildEntry { name: "b.apk".into(), path: "/o/b.apk".into(), created_on: None, starred: false },
        ],
        added_file: None,
        stream_type: None,
        star: None,
        status: "active".into(),
        created_on: "2024-01-01".into(),
        edited_on: "2024-01-01".into(),
    }
}

#[test]
fn portable_paths_are_read_from_the_last_segment() {
    assert_eq!(file_name_of("/x/outputs/app-debug.apk"), Some("app-debug.apk".to_string()));
    assert_eq!(extension_of("/x/outputs/app-debug.apk"), Some("apk".to_string()));
    assert_eq!(extension_of("/x/.hidden"), None);
    assert_eq!(extension_of("archive.tar.gz"), Some("gz".to_string()));
    let f = file_facts("/x/outputs/app-release.apk".to_string(), Some("2024-05-03 14:07".to_string()));
    assert_eq!(f.file_name, Some("app-release.apk".to_string()));
    assert_eq!(f.extension, Some("apk".to_string()));
    assert_eq!(f.created_on, Some("2024-05-03 14:07".to_string()));
}

#[test]
fn content_types_follow_the_extension() {
    assert_eq!(content_type_for("app-debug.apk"), "application/vnd.android.package-archive");
    assert_eq!(content_type_for("notes.txt"), "application/octet-stream");
    assert_eq!(content_type_for("apk"), "application/octet-stream");
}

#[test]
fn destinations_use_the_names_own_stem() {
    let taken = vec!["app.apk".to_string(), "app-1.apk".to_string()];
    assert_eq!(unique_destination("app.apk", &taken), "app-2.apk");
    assert_eq!(unique_destination("other.apk", &taken), "other.apk");
    let taken = vec!["README".to_string()];
    assert_eq!(unique_destination("README", &taken), "README-1");
}

#[test]
fn failed_submit_keeps_the_edit() {
    let store = ProjectStore { projects: vec![project("App")] };
    let mut st = DashboardState::new(true);
    st.begin_edit_project(&store, "App");
    let before_name = st.create_form.name.clone();
    let msg = st.apply_submit(Err("A project named 'x' already exists.".to_string()));
    assert_eq!(msg, None);
    assert!(st.create_modal_open);
    assert!(matches!(&st.modal_mode, ModalMode::Edit { original_name } if original_name == "App"));
    assert_eq!(st.create_form.name, before_name);
}

#[test]
fn pruning_closes_the_whole_page() {
    let store = ProjectStore { projects: vec![project("App")] };
    let mut st = DashboardState::new(true);
    st.open_project_details("Gone");
    st.selected_build_index = Some(1);
    st.project_path_popup_open = true;
    st.prune_selection(&store);
    assert_eq!(st.selected_project_name, None);
    assert_eq!(st.selected_build_index, None);
    assert!(!st.project_path_popup_open);
    assert_eq!(st.nav, Nav::Home);
    st.open_project_details("App");
    st.prune_selection(&store);
    assert_eq!(st.selected_project_name, Some("App".to_string()));
}

#[test]
fn widths_compare_as_floats() {
    assert!(float_bits_equal(0.0f32.to_bits(), (-0.0f32).to_bits()));
    assert!(float_bits_equal(260.0f32.to_bits(), 260.0f32.to_bits()));
    assert!(!float_bits_equal(f32::NAN.to_bits(), f32::NAN.to_bits()));
    assert!(!float_bits_equal(1.0f32.to_bits(), 2.0f32.to_bits()));

    let mut p = Preferences::default();
    p.config.side_pane.width = Some((-0.0f32).to_bits());
    let mut s = view_settings_from(&p);
    s.sidebar_width_bits = 0.0f32.to_bits();
    assert!(!sync_preferences(&mut p, &s));
    assert_eq!(p.config.side_pane.width, Some((-0.0f32).to_bits()));

    s.sidebar_width_bits = f32::NAN.to_bits();
    assert!(sync_preferences(&mut p, &s));
    assert!(sync_preferences(&mut p, &s));
}

#[test]
fn stored_types_read_back_in_any_case() {
    for t in ProjectType::all() {
        let s = t.storage_value();
        assert_eq!(ProjectType::from_storage(s), Some(t));
        assert_eq!(ProjectType::from_storage(&s.to_uppercase()), Some(t));
        assert_eq!(ProjectType::from_storage(&format!("  {s}\t")), Some(t));
    }
}

#[test]
fn sort_preferences_read_back() {
    for by in [ProjectSortBy::Title, ProjectSortBy::DateCreated, ProjectSortBy::ProjectType] {
        assert_eq!(ProjectSortBy::from_pref(by.as_pref()), by);
    }
    for order in [ProjectSortOrder::Asc, ProjectSortOrder::Desc] {
        assert_eq!(ProjectSortOrder::from_pref(order.as_pref()), order);
    }
    assert_eq!(ProjectSortBy::from_pref("CREATED"), ProjectSortBy::DateCreated);
    assert_eq!(ProjectSortBy::from_pref("project_type"), ProjectSortBy::ProjectType);
    assert_eq!(ProjectSortBy::from_pref("name"), ProjectSortBy::Title);
}

#[test]
fn two_toggles_clear_the_star() {
    let mut s = ProjectStore { projects: vec![project("App")] };
    assert!(s.toggle_build_star("App", "/o/b.apk"));
    assert_eq!(s.projects[0].star, Some("/o/b.apk".to_string()));
    assert!(s.toggle_build_star("App", "/o/b.apk"));
    assert_eq!(s.projects[0].star, None);
    assert!(s.projects[0].builds.iter().all(|b| !b.starred));
}

#[test]
fn edits_keep_names_distinct() {
    let mut s = ProjectStore { projects: vec![project("App"), project("Other")] };
    let edit = ModalMode::Edit { original_name: "App".into() };
    let f = CreateProjectForm { name: "APP".into(), main_path: "/w".into(), project_type: ProjectType::Flutter };
    assert_eq!(s.create_project(&f, &edit, "2024-02-02"), Ok("Project 'APP' updated.".to_string()));
    let f = CreateProjectForm { name: "other".into(), main_path: "/w".into(), project_type: ProjectType::Flutter };
    let edit = ModalMode::Edit { original_name: "APP".into() };
    assert_eq!(s.create_project(&f, &edit, "2024-02-02"), Err("A project named 'other' already exists.".to_string()));
    assert_eq!(s.projects[0].name, "APP");
    assert_eq!(s.projects[1].name, "Other");
}
