use build_bridge::builds::{
    apk_builds_from, artifact_type_options, file_facts, project_artifact_type_options, FileFacts,
    ScanTarget,
};
use build_bridge::listing::{filtered_projects, map_framework_label, Nav};
use build_bridge::models::{BuildEntry, CreateProjectForm, ProjectRecord, ProjectType};
use build_bridge::settings::{ProjectSortBy, ProjectSortOrder};
use build_bridge::store::{ModalMode, ProjectStore};

fn project(name: &str, ty: &str, status: &str, created: &str) -> ProjectRecord {
    ProjectRecord {
        name: name.into(),
        project_type: ty.into(),
        main_path: format!("/work/{name}"),
        builds: vec![],
        added_file: None,
        stream_type: Some("localhost-token".into()),
        star: None,
        status: status.into(),
        created_on: created.into(),
        edited_on: created.into(),
    }
}

fn build(name: &str, path: &str, created: Option<&str>, starred: bool) -> BuildEntry {
    BuildEntry { name: name.into(), path: path.into(), created_on: created.map(|s| s.to_string()), starred }
}

fn form(name: &str, path: &str, t: ProjectType) -> CreateProjectForm {
    CreateProjectForm { name: name.into(), main_path: path.into(), project_type: t }
}

fn names(v: &[ProjectRecord]) -> Vec<&str> {
    v.iter().map(|p| p.name.as_str()).collect()
}

#[test]
fn create_project_checks_and_adds() {
    let mut s = ProjectStore { projects: vec![project("Alpha", "Android Studio", "active", "2024-01-01")] };
    assert_eq!(s.create_project(&form("  ", "/p", ProjectType::Flutter), &ModalMode::Create, "2024-02-02"),
        Err("Project name is required.".to_string()));
    assert_eq!(s.create_project(&form("Beta", " \t", ProjectType::Flutter), &ModalMode::Create, "2024-02-02"),
        Err("Project path is required. Paste a path or use Browse.".to_string()));
    assert_eq!(s.create_project(&form(" ALPHA ", "/p", ProjectType::Flutter), &ModalMode::Create, "2024-02-02"),
        Err("A project named 'ALPHA' already exists.".to_string()));
    assert_eq!(s.projects.len(), 1);
    assert_eq!(s.create_project(&form(" Beta ", " /b ", ProjectType::Flutter), &ModalMode::Create, "2024-02-02"),
        Ok("Project 'Beta' created.".to_string()));
    let b = &s.projects[1];
    assert_eq!((b.name.as_str(), b.project_type.as_str(), b.main_path.as_str()), ("Beta", "Flutter", "/b"));
    assert_eq!((b.status.as_str(), b.created_on.as_str(), b.edited_on.as_str()), ("active", "2024-02-02", "2024-02-02"));
    assert_eq!(b.stream_type, Some("localhost-token".to_string()));
    assert!(b.builds.is_empty() && b.star.is_none() && b.added_file.is_none());
}

#[test]
fn edit_project_renames_in_place() {
    let mut s = ProjectStore { projects: vec![project("Alpha", "Android Studio", "active", "2024-01-01"), project("Beta", "Flutter", "archived", "2024-01-03")] };
    let edit = ModalMode::Edit { original_name: "Alpha".into() };
    assert_eq!(s.create_project(&form("alpha", "/new", ProjectType::Python), &edit, "2024-05-05"),
        Ok("Project 'alpha' updated.".to_string()));
    let a = &s.projects[0];
    assert_eq!((a.name.as_str(), a.project_type.as_str(), a.main_path.as_str(), a.edited_on.as_str(), a.created_on.as_str()),
        ("alpha", "Python", "/new", "2024-05-05", "2024-01-01"));
    assert_eq!(s.create_project(&form("beta", "/x", ProjectType::Python), &edit, "2024-05-05"),
        Err("A project named 'beta' already exists.".to_string()));
    let gone = ModalMode::Edit { original_name: "Zed".into() };
    assert_eq!(s.create_project(&form("Zed2", "/x", ProjectType::Python), &gone, "2024-05-05"),
        Err("Project 'Zed' not found for edit.".to_string()));
}

#[test]
fn status_moves_and_messages() {
    let mut s = ProjectStore { projects: vec![project("A", "Flutter", "active", "d0")] };
    assert_eq!(s.archive_project("A", "d1"), Ok("Project 'A' archived.".to_string()));
    assert_eq!((s.projects[0].status.as_str(), s.projects[0].edited_on.as_str()), ("archived", "d1"));
    assert_eq!(s.unarchive_project("A", "d2"), Ok("Project 'A' unarchived.".to_string()));
    assert_eq!(s.projects[0].status, "active");
    assert_eq!(s.bin_project("A", "d3"), Ok("Project 'A' moved to Bin.".to_string()));
    assert_eq!(s.projects[0].status, "deleted");
    assert_eq!(s.restore_project("A", "d4"), Ok("Project 'A' restored from Bin.".to_string()));
    assert_eq!((s.projects[0].status.as_str(), s.projects[0].edited_on.as_str()), ("active", "d4"));
    assert_eq!(s.archive_project("B", "d5"), Err("Project 'B' not found.".to_string()));
    assert_eq!(s.projects[0].edited_on, "d4");
}

#[test]
fn deleting_projects() {
    let mut s = ProjectStore { projects: vec![
        project("A", "Flutter", "deleted", "d"),
        project("B", "Flutter", "active", "d"),
        project("C", "Flutter", "deleted", "d"),
        project("D", "Flutter", "archived", "d"),
    ] };
    assert_eq!(s.permanent_delete_project("B"), Ok("Project 'B' permanently deleted.".to_string()));
    assert_eq!(names(&s.projects), vec!["A", "C", "D"]);
    assert_eq!(s.permanent_delete_project("B"), Err("Project 'B' not found.".to_string()));
    assert_eq!(s.empty_bin(), 2);
    assert_eq!(names(&s.projects), vec!["D"]);
    assert_eq!(s.empty_bin(), 0);
    let mut t = ProjectStore { projects: vec![project("A", "x", "active", "d"), project("B", "x", "active", "d"), project("C", "x", "active", "d")] };
    assert_eq!(t.bulk_permanent_delete_projects(&vec!["C".into(), "A".into(), "Q".into()]), 2);
    assert_eq!(names(&t.projects), vec!["B"]);
    assert_eq!(t.bulk_permanent_delete_projects(&vec![]), 0);
}

#[test]
fn bulk_status_changes_count() {
    let mut s = ProjectStore { projects: vec![project("A", "x", "archived", "d"), project("B", "x", "archived", "d"), project("C", "x", "archived", "d")] };
    assert_eq!(s.bulk_bin_projects(&vec!["A".into(), "C".into()], "t1"), 2);
    assert_eq!(s.projects.iter().map(|p| p.status.as_str()).collect::<Vec<_>>(), vec!["deleted", "archived", "deleted"]);
    assert_eq!(s.projects[1].edited_on, "d");
    assert_eq!(s.bulk_restore_projects(&vec!["A".into()], "t2"), 1);
    assert_eq!(s.bulk_unarchive_projects(&vec!["B".into(), "nope".into()], "t3"), 1);
    assert_eq!(s.projects.iter().map(|p| p.status.as_str()).collect::<Vec<_>>(), vec!["active", "active", "deleted"]);
    assert_eq!(s.bulk_bin_projects(&vec![], "t4"), 0);
}

#[test]
fn per_project_options() {
    let mut s = ProjectStore { projects: vec![project("A", "x", "active", "d")] };
    assert_eq!(s.set_project_stream_type("A", "localhost-token"), Ok(false));
    assert_eq!(s.set_project_stream_type("A", "localhost"), Ok(true));
    assert_eq!(s.projects[0].stream_type, Some("localhost".to_string()));
    assert_eq!(s.set_project_stream_type("Z", "x"), Err("Project 'Z' not found.".to_string()));
    assert_eq!(s.add_extra_file("A", "/tmp/notes.txt"), Ok(true));
    assert_eq!(s.add_extra_file("A", "/tmp/notes.txt"), Ok(false));
    assert_eq!(s.projects[0].added_file, Some("/tmp/notes.txt".to_string()));
    assert!(s.selected_project("A").is_some());
    assert!(s.selected_project("a").is_none());
    assert_eq!(s.find("A"), Some(0));
}

#[test]
fn apk_builds_are_found_and_ordered() {
    let files = vec![
        file_facts("/o/debug/app-debug.apk".into(), Some("2024-01-02 10:00".into())),
        file_facts("/o/release/output.json".into(), Some("2024-01-03 10:00".into())),
        file_facts("/o/release/app-release.APK".into(), Some("2024-01-03 09:00".into())),
        file_facts("/o/zz.apk".into(), None),
        file_facts("/o/other/b.apk".into(), Some("2024-01-02 10:00".into())),
        FileFacts { path: "/o/odd".into(), file_name: None, extension: Some("apk".into()), created_on: None },
    ];
    let bs = apk_builds_from(&files);
    let got: Vec<(&str, &str)> = bs.iter().map(|b| (b.name.as_str(), b.path.as_str())).collect();
    assert_eq!(got, vec![
        ("app-release.APK", "/o/release/app-release.APK"),
        ("app-debug.apk", "/o/debug/app-debug.apk"),
        ("b.apk", "/o/other/b.apk"),
        ("build.apk", "/o/odd"),
        ("zz.apk", "/o/zz.apk"),
    ]);
    assert!(bs.iter().all(|b| !b.starred));
}

#[test]
fn star_toggles() {
    let mut p = project("A", "Android Studio", "active", "d");
    p.builds = vec![build("a", "/a", None, false), build("b", "/b", None, true)];
    let mut s = ProjectStore { projects: vec![p] };
    assert!(s.toggle_build_star("A", "/a"));
    assert_eq!(s.projects[0].builds.iter().map(|b| b.starred).collect::<Vec<_>>(), vec![true, false]);
    assert_eq!(s.projects[0].star, Some("/a".to_string()));
    assert!(s.toggle_build_star("A", "/a"));
    assert!(s.projects[0].builds.iter().all(|b| !b.starred));
    assert_eq!(s.projects[0].star, None);
    assert!(!s.toggle_build_star("Q", "/a"));
}

#[test]
fn rescans_merge_with_star() {
    let mut p = project("A", "Android Studio", "active", "d");
    p.builds = vec![build("a", "/a", None, true)];
    let mut s = ProjectStore { projects: vec![p, project("F", "Flutter", "active", "d")] };
    match s.scan_target("A") {
        Ok(ScanTarget::Scan { main_path }) => assert_eq!(main_path, "/work/A"),
        _ => panic!("expected a scan"),
    }
    match s.scan_target("F") {
        Ok(ScanTarget::Skip { build_count }) => assert_eq!(build_count, 0),
        _ => panic!("expected a skip"),
    }
    assert!(s.scan_target("Z").is_err());
    let found = vec![build("new", "/new", Some("t"), false), build("a", "/a", None, false)];
    assert_eq!(s.merge_detected_builds("A", found), (2, true));
    assert_eq!(s.projects[0].star, Some("/a".to_string()));
    assert_eq!(s.projects[0].builds.iter().map(|b| (b.path.as_str(), b.starred)).collect::<Vec<_>>(), vec![("/new", false), ("/a", true)]);
    let again = vec![build("new", "/new", Some("t"), false), build("a", "/a", None, false)];
    assert_eq!(s.merge_detected_builds("A", again), (2, false));
}

#[test]
fn artifact_types_offered() {
    assert_eq!(artifact_type_options("Android Studio", &vec![]), vec!["aab", "apk", "custom_type"]);
    assert_eq!(artifact_type_options("Flutter", &vec![None]), vec!["apk", "custom_type"]);
    assert_eq!(artifact_type_options("Python", &vec![]), vec!["custom_type"]);
    assert_eq!(artifact_type_options("unknown", &vec![]), vec!["aab", "apk", "custom_type"]);
    assert_eq!(artifact_type_options("Python", &vec![Some(" ZIP ".into()), Some("apk".into()), Some("zip".into()), Some(" ".into())]),
        vec!["apk", "custom_type", "zip"]);
    let mut p = project("A", "Android Studio", "active", "d");
    p.builds = vec![build("x", "/o/x.AAB", None, false), build("y", "/o/y", None, false)];
    assert_eq!(project_artifact_type_options(&p), vec!["aab", "custom_type"]);
}

#[test]
fn page_lists_filter_and_sort() {
    let s = ProjectStore { projects: vec![
        project("beta", "Flutter", "active", "2024-03-01"),
        project("Alpha", "Android Studio", "active", "2024-01-01"),
        project("gamma", "Python", "archived", "2024-02-01"),
        project("delta", "flutter", "active", "2024-03-01"),
    ] };
    assert_eq!(names(&filtered_projects(&s, Nav::Home, "", ProjectSortBy::Title, ProjectSortOrder::Asc)), vec!["Alpha", "beta", "delta"]);
    assert_eq!(names(&filtered_projects(&s, Nav::Home, "", ProjectSortBy::Title, ProjectSortOrder::Desc)), vec!["delta", "beta", "Alpha"]);
    assert_eq!(names(&filtered_projects(&s, Nav::Home, "", ProjectSortBy::DateCreated, ProjectSortOrder::Desc)), vec!["beta", "delta", "Alpha"]);
    assert_eq!(names(&filtered_projects(&s, Nav::Home, "FLUT", ProjectSortBy::ProjectType, ProjectSortOrder::Asc)), vec!["beta", "delta"]);
    assert_eq!(names(&filtered_projects(&s, Nav::Archived, "", ProjectSortBy::Title, ProjectSortOrder::Asc)), vec!["gamma"]);
    assert_eq!(names(&filtered_projects(&s, Nav::Home, "work/al", ProjectSortBy::Title, ProjectSortOrder::Asc)), vec!["Alpha"]);
    assert_eq!(names(&filtered_projects(&s, Nav::Home, "ACTIVE", ProjectSortBy::ProjectType, ProjectSortOrder::Asc)), vec!["Alpha", "beta", "delta"]);
    assert!(filtered_projects(&s, Nav::About, "", ProjectSortBy::Title, ProjectSortOrder::Asc).is_empty());
    assert!(filtered_projects(&s, Nav::Bin, "", ProjectSortBy::Title, ProjectSortOrder::Asc).is_empty());
    assert_eq!(map_framework_label("flutter"), "Flutter");
    assert_eq!(map_framework_label("Kotlin"), "Kotlin");
}
