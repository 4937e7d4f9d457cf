use build_bridge::dashboard::{
    agent_arguments, bulk_message, confirm_dialog_text, empty_bin_message, empty_list_state,
    plan_bridge_serve, rescan_due, submit_label, support_page_body, support_page_of, token_line,
    BulkAction, CreateModalStep, DashboardState, ProjectConfirmAction, ServePlan, SupportPage,
};
use build_bridge::dashboard::{
    card_click_opens, card_menu_actions, card_primary_action, page_heading, CardAction,
};
use build_bridge::icons::{bridge_toggle_icon, icon_file_name, status_icon, IconKind};
use build_bridge::listing::Nav;
use build_bridge::models::{ProjectRecord, ProjectType};
use build_bridge::store::{ModalMode, ProjectStore};

fn project(name: &str, ty: &str, stream: Option<&str>) -> ProjectRecord {
    ProjectRecord {
        name: name.into(),
        project_type: ty.into(),
        main_path: format!("/w/{name}"),
        builds: vec![],
        added_file: None,
        stream_type: stream.map(|s| s.to_string()),
        star: None,
        status: "active".into(),
        created_on: "d".into(),
        edited_on: "d".into(),
    }
}

#[test]
fn page_texts() {
    assert_eq!(support_page_body(SupportPage::About), "BuildBridge is a native desktop app for organizing project build outputs.");
    assert_eq!(support_page_body(SupportPage::PrivacyPolicy), "Privacy Policy: project data is saved locally in your OS config folder.");
    assert_eq!(support_page_of(Nav::Feedback), Some(SupportPage::Feedback));
    assert_eq!(support_page_of(Nav::Home), None);
    let (t, m, c) = confirm_dialog_text(&ProjectConfirmAction::MoveToBin { project_name: "App".into() });
    assert_eq!((t, m.as_str(), c), ("Move to Bin", "Move 'App' to Bin? You can restore it later.", "Move to Bin"));
    let (t, m, c) = confirm_dialog_text(&ProjectConfirmAction::PermanentDelete { project_name: "App".into() });
    assert_eq!((t, m.as_str(), c), ("Permanent Delete", "This will permanently delete 'App'. This action cannot be undone.", "Permanent Delete"));
    assert_eq!(submit_label(&ModalMode::Create), "Create");
    assert_eq!(submit_label(&ModalMode::Edit { original_name: "x".into() }), "Save");
    assert_eq!(empty_list_state(Nav::Bin), (IconKind::Trash, "No Projects in Bin"));
    assert_eq!(empty_list_state(Nav::Archived), (IconKind::Archive, "No Archived Projects"));
    assert_eq!(empty_list_state(Nav::Home), (IconKind::Briefcase, "No Projects"));
    assert_eq!(status_icon(true), IconKind::Bell);
    assert_eq!(bridge_toggle_icon(false), IconKind::BridgeStatusExpand);
}

#[test]
fn messages_with_counts() {
    assert_eq!(bulk_message(BulkAction::Bin, 3), "Moved 3 project(s) to Bin.");
    assert_eq!(bulk_message(BulkAction::Unarchive, 0), "Unarchived 0 project(s).");
    assert_eq!(bulk_message(BulkAction::PermanentDelete, 12), "Permanently deleted 12 project(s).");
    assert_eq!(bulk_message(BulkAction::Restore, 1), "Restored 1 project(s).");
    assert_eq!(empty_bin_message(0), "Bin is already empty.");
    assert_eq!(empty_bin_message(7), "Removed 7 project(s) from Bin.");
}

#[test]
fn rescans_and_serving() {
    assert!(rescan_due(true, true, None));
    assert!(rescan_due(true, true, Some(1_000_000_000)));
    assert!(!rescan_due(true, true, Some(999_999_999)));
    assert!(!rescan_due(false, true, None));
    assert!(!rescan_due(true, false, None));
    match plan_bridge_serve(&project("App", "x", None)) {
        ServePlan::Launch { header, with_token } => {
            assert_eq!(header, "PS > serve \"App\" --mode bridge");
            assert!(with_token);
        }
        ServePlan::NotImplemented => panic!("should launch"),
    }
    match plan_bridge_serve(&project("App", "x", Some("localhost"))) {
        ServePlan::Launch { with_token, .. } => assert!(!with_token),
        ServePlan::NotImplemented => panic!("should launch"),
    }
    assert!(matches!(plan_bridge_serve(&project("App", "x", Some("tunnel"))), ServePlan::NotImplemented));
    assert_eq!(token_line("ab12"), "Token: ab12");
    assert_eq!(agent_arguments("/c/Projects.json", "App", &Some("t".into())),
        vec!["--projects", "/c/Projects.json", "--project", "App", "--port", "4000", "--token", "t"]);
    assert_eq!(agent_arguments("/p", "A", &None), vec!["--projects", "/p", "--project", "A", "--port", "4000"]);
}

#[test]
fn details_and_forms() {
    let store = ProjectStore { projects: vec![project("App", "flutter", None)] };
    let mut st = DashboardState::new(true);
    assert!(st.bridge_status_expanded && st.nav == Nav::Home && !st.create_modal_open);
    st.open_project_details("App");
    assert_eq!(st.selected_project_name.as_deref(), Some("App"));
    assert!(!st.bridge_status_expanded);
    st.prune_selection(&store);
    assert_eq!(st.selected_project_name.as_deref(), Some("App"));
    st.nav = Nav::About;
    st.prune_selection(&store);
    assert_eq!(st.selected_project_name, None);
    st.nav = Nav::Home;
    st.open_project_details("Gone");
    st.project_path_popup_open = true;
    st.prune_selection(&store);
    assert_eq!(st.selected_project_name, None);
    assert!(!st.project_path_popup_open);

    st.begin_edit_project(&store, "App");
    assert!(st.create_modal_open);
    assert_eq!(st.create_modal_step, CreateModalStep::Form);
    assert_eq!(st.create_form.project_type, ProjectType::Flutter);
    assert_eq!(st.selected_framework, ProjectType::Flutter);
    assert_eq!(st.create_form.main_path, "/w/App");
    assert!(matches!(&st.modal_mode, ModalMode::Edit { original_name } if original_name == "App"));
    st.after_modal_closed();
    assert!(matches!(st.modal_mode, ModalMode::Create));
    st.begin_create_project();
    assert!(st.create_modal_open && st.create_form.name.is_empty());
    assert_eq!(st.create_modal_step, CreateModalStep::Framework);
    let before = st.create_form.name.clone();
    st.begin_edit_project(&store, "Nope");
    assert_eq!(st.create_form.name, before);
    st.close_project_details();
    assert_eq!(st.selected_artifact_type, "Type");
}

#[test]
fn card_menus_per_page() {
    assert_eq!(
        card_menu_actions(Nav::Home),
        vec![CardAction::Edit, CardAction::Archive, CardAction::Bin]
    );
    assert_eq!(
        card_menu_actions(Nav::Archived),
        vec![CardAction::Edit, CardAction::Unarchive, CardAction::Bin]
    );
    assert_eq!(
        card_menu_actions(Nav::Bin),
        vec![CardAction::Edit, CardAction::Archive, CardAction::Restore, CardAction::PermanentDelete]
    );
    assert_eq!(card_primary_action(Nav::Home, "active"), Some(CardAction::Serve));
    assert_eq!(card_primary_action(Nav::Home, "archived"), None);
    assert_eq!(card_primary_action(Nav::Archived, "archived"), Some(CardAction::Unarchive));
    assert_eq!(card_primary_action(Nav::Bin, "deleted"), Some(CardAction::Restore));
    assert!(card_click_opens(Nav::Home, true, false));
    assert!(!card_click_opens(Nav::Home, true, true));
    assert!(!card_click_opens(Nav::Bin, true, false));
    assert!(!card_click_opens(Nav::Archived, false, false));
}

#[test]
fn page_headings() {
    assert_eq!(page_heading(Nav::Home, &None), "Your Projects");
    assert_eq!(page_heading(Nav::Archived, &None), "Your Projects");
    assert_eq!(page_heading(Nav::Bin, &None), "Bin");
    assert_eq!(page_heading(Nav::Bin, &Some("Demo".to_string())), "Demo");
}

#[test]
fn icon_files_per_theme() {
    assert_eq!(icon_file_name(true, IconKind::Back), "caret_left_dark.svg");
    assert_eq!(icon_file_name(false, IconKind::Back), "caret_left_light.svg");
    assert_eq!(icon_file_name(true, IconKind::ActionDelete), "action_delete_red.svg");
    assert_eq!(icon_file_name(false, IconKind::ActionDelete), "action_delete_red.svg");
    assert_eq!(icon_file_name(false, IconKind::StarFilled), "star-fill.svg");
    assert_eq!(icon_file_name(true, IconKind::BellSlash), "bell_slash_dark.svg");
}

#[test]
fn select_modes_per_page() {
    let mut st = DashboardState::new(false);
    assert!(!st.selecting(Nav::Archived));
    st.toggle_select_mode(Nav::Archived);
    assert!(st.selecting(Nav::Archived));
    assert!(!st.selecting(Nav::Bin));
    st.set_card_checked(Nav::Archived, "A", true);
    st.set_card_checked(Nav::Archived, "B", true);
    st.set_card_checked(Nav::Archived, "A", true);
    st.set_card_checked(Nav::Archived, "B", false);
    assert!(st.card_checked(Nav::Archived, "A"));
    assert!(!st.card_checked(Nav::Archived, "B"));
    assert!(!st.card_checked(Nav::Bin, "A"));
    assert_eq!(st.selected_names(Nav::Archived), vec!["A".to_string()]);
    st.select_all_listed(Nav::Archived, &vec!["X".to_string(), "Y".to_string()]);
    assert_eq!(st.selected_names(Nav::Archived), vec!["X".to_string(), "Y".to_string()]);
    st.clear_selection(Nav::Archived);
    assert!(st.selected_names(Nav::Archived).is_empty());
    assert!(st.selecting(Nav::Archived));
    st.set_card_checked(Nav::Archived, "A", true);
    st.toggle_select_mode(Nav::Archived);
    assert!(!st.selecting(Nav::Archived));
    assert!(st.selected_names(Nav::Archived).is_empty());
    st.toggle_select_mode(Nav::Home);
    assert!(!st.selecting(Nav::Home));
}

#[test]
fn qr_image_refresh() {
    let mut st = DashboardState::new(true);
    assert!(st.qr_refresh_due(false, "http://127.0.0.1:4000/"));
    assert!(st.qr_refresh_due(true, "http://127.0.0.1:4000/"));
    st.note_qr_drawn("http://127.0.0.1:4000/");
    assert!(!st.qr_refresh_due(true, "http://127.0.0.1:4000/"));
    assert!(st.qr_refresh_due(false, "http://127.0.0.1:4000/"));
    assert!(st.qr_refresh_due(true, "http://10.0.0.2:4000/"));
    st.forget_qr();
    assert!(st.qr_refresh_due(true, "http://127.0.0.1:4000/"));
}

#[test]
fn opening_a_project_keeps_the_rest() {
    let mut st = DashboardState::new(true);
    st.open_terminal_link("http://x/");
    st.project_path_popup_open = true;
    st.form_error = Some("e".into());
    st.open_project_details("App");
    assert_eq!(st.selected_project_name, Some("App".to_string()));
    assert!(!st.bridge_status_expanded);
    assert!(st.terminal_link_popup_open);
    assert_eq!(st.terminal_link_target, Some("http://x/".to_string()));
    assert!(st.project_path_popup_open);
    assert_eq!(st.form_error, Some("e".to_string()));
}
