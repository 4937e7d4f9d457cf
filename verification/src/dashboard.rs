//! The dashboard's page and dialog state: which project is open, the
//! create/edit form, confirmation dialogs, and the texts the pages show.
use crate::icons::IconKind;
use crate::listing::Nav;
use crate::models::{type_from_storage, CreateProjectForm, ProjectRecord, ProjectType};
use crate::selection::Selection;
use crate::store::{has_named, index_named, mode_editing, ModalMode, ProjectStore};
use crate::text::{
    concat2, concat3, contains, decimal, decimal_string, has_prefix, has_substring, starts_with,
    str_equals,
};
use vstd::prelude::*;

verus! {

/// The two steps of the create dialog.
#[derive(Clone, Copy, PartialEq, Eq, Structural, Debug)]
pub enum CreateModalStep {
    Framework,
    Form,
}

/// The pages of the support section.
#[derive(Clone, Copy, PartialEq, Eq, Structural, Debug)]
pub enum SupportPage {
    About,
    Feedback,
    PrivacyPolicy,
}

/// An action on a project that waits for confirmation.
pub enum ProjectConfirmAction {
    MoveToBin { project_name: String },
    PermanentDelete { project_name: String },
}

pub open spec fn support_text(page: SupportPage) -> Seq<char> {
    match page {
        SupportPage::About => "BuildBridge is a native desktop app for organizing project build outputs."@,
        SupportPage::Feedback => "Feedback: please share bugs and feature ideas in your issue tracker."@,
        SupportPage::PrivacyPolicy => "Privacy Policy: project data is saved locally in your OS config folder."@,
    }
}

pub fn support_page_body(page: SupportPage) -> (r: &'static str)
    ensures
        r@ == support_text(page),
{
    match page {
        SupportPage::About => "BuildBridge is a native desktop app for organizing project build outputs.",
        SupportPage::Feedback => "Feedback: please share bugs and feature ideas in your issue tracker.",
        SupportPage::PrivacyPolicy => "Privacy Policy: project data is saved locally in your OS config folder.",
    }
}

/// The support page a navigation entry shows, if any.
pub fn support_page_of(nav: Nav) -> (r: Option<SupportPage>)
    ensures
        r == match nav {
            Nav::About => Some(SupportPage::About),
            Nav::Feedback => Some(SupportPage::Feedback),
            Nav::PrivacyPolicy => Some(SupportPage::PrivacyPolicy),
            _ => None::<SupportPage>,
        },
{
    match nav {
        Nav::About => Some(SupportPage::About),
        Nav::Feedback => Some(SupportPage::Feedback),
        Nav::PrivacyPolicy => Some(SupportPage::PrivacyPolicy),
        _ => None,
    }
}

/// The title, message and confirm-button label of a confirmation dialog.
pub open spec fn confirm_texts(a: ProjectConfirmAction) -> (Seq<char>, Seq<char>, Seq<char>) {
    match a {
        ProjectConfirmAction::MoveToBin { project_name } => (
            "Move to Bin"@,
            "Move '"@ + project_name@ + "' to Bin? You can restore it later."@,
            "Move to Bin"@,
        ),
        ProjectConfirmAction::PermanentDelete { project_name } => (
            "Permanent Delete"@,
            "This will permanently delete '"@ + project_name@ + "'. This action cannot be undone."@,
            "Permanent Delete"@,
        ),
    }
}

pub fn confirm_dialog_text(a: &ProjectConfirmAction) -> (r: (&'static str, String, &'static str))
    ensures
        (r.0@, r.1@, r.2@) == confirm_texts(*a),
{
    match a {
        ProjectConfirmAction::MoveToBin { project_name } => (
            "Move to Bin",
            concat3("Move '", project_name.as_str(), "' to Bin? You can restore it later."),
            "Move to Bin",
        ),
        ProjectConfirmAction::PermanentDelete { project_name } => (
            "Permanent Delete",
            concat3(
                "This will permanently delete '",
                project_name.as_str(),
                "'. This action cannot be undone.",
            ),
            "Permanent Delete",
        ),
    }
}

/// The form's submit button: `Save` when editing, else `Create`.
pub fn submit_label(mode: &ModalMode) -> (r: &'static str)
    ensures
        r@ == (if mode_editing(*mode) is Some {
            "Save"@
        } else {
            "Create"@
        }),
{
    match mode {
        ModalMode::Edit { .. } => "Save",
        ModalMode::Create => "Create",
    }
}

/// What an empty project list shows, per page.
pub fn empty_list_state(nav: Nav) -> (r: (IconKind, &'static str))
    ensures
        r.0 == match nav {
            Nav::Archived => IconKind::Archive,
            Nav::Bin => IconKind::Trash,
            _ => IconKind::Briefcase,
        },
        r.1@ == match nav {
            Nav::Archived => "No Archived Projects"@,
            Nav::Bin => "No Projects in Bin"@,
            _ => "No Projects"@,
        },
{
    match nav {
        Nav::Archived => (IconKind::Archive, "No Archived Projects"),
        Nav::Bin => (IconKind::Trash, "No Projects in Bin"),
        _ => (IconKind::Briefcase, "No Projects"),
    }
}

/// What a project card on a list page can be asked to do.
#[derive(Clone, Copy, PartialEq, Eq, Structural, Debug)]
pub enum CardAction {
    Open,
    Edit,
    Archive,
    Unarchive,
    Bin,
    Restore,
    PermanentDelete,
    Serve,
}

/// The entries of a card's menu on the page `nav`: edit; archive, or
/// unarchive on the archive page; and bin, or on the bin page restore and
/// permanent delete.
pub open spec fn card_menu(nav: Nav) -> Seq<CardAction> {
    match nav {
        Nav::Archived => seq![CardAction::Edit, CardAction::Unarchive, CardAction::Bin],
        Nav::Bin => seq![
            CardAction::Edit,
            CardAction::Archive,
            CardAction::Restore,
            CardAction::PermanentDelete,
        ],
        _ => seq![CardAction::Edit, CardAction::Archive, CardAction::Bin],
    }
}

pub fn card_menu_actions(nav: Nav) -> (r: Vec<CardAction>)
    ensures
        r@ == card_menu(nav),
{
    match nav {
        Nav::Archived => vec![CardAction::Edit, CardAction::Unarchive, CardAction::Bin],
        Nav::Bin => vec![
            CardAction::Edit,
            CardAction::Archive,
            CardAction::Restore,
            CardAction::PermanentDelete,
        ],
        _ => vec![CardAction::Edit, CardAction::Archive, CardAction::Bin],
    }
}

/// The button beside a card's menu: unarchive on the archive page, restore
/// on the bin page, serve for an active project elsewhere, else none.
pub fn card_primary_action(nav: Nav, status: &str) -> (r: Option<CardAction>)
    ensures
        r == match nav {
            Nav::Archived => Some(CardAction::Unarchive),
            Nav::Bin => Some(CardAction::Restore),
            _ => if status@ == "active"@ {
                Some(CardAction::Serve)
            } else {
                None::<CardAction>
            },
        },
{
    match nav {
        Nav::Archived => Some(CardAction::Unarchive),
        Nav::Bin => Some(CardAction::Restore),
        _ => if str_equals(status, "active") {
            Some(CardAction::Serve)
        } else {
            None
        },
    }
}

/// A click on a card opens the project when it falls on the card itself,
/// not on one of its controls, and the card is not in the bin.
pub fn card_click_opens(nav: Nav, on_card: bool, on_control: bool) -> (r: bool)
    ensures
        r == (on_card && !on_control && nav != Nav::Bin),
{
    on_card && !on_control && nav != Nav::Bin
}

/// The heading of a project page: the open project's name, else `Bin` on
/// the bin page and `Your Projects` on the others.
pub fn page_heading(nav: Nav, selected: &Option<String>) -> (r: String)
    ensures
        r@ == match selected {
            Some(n) => n@,
            None => if nav == Nav::Bin {
                "Bin"@
            } else {
                "Your Projects"@
            },
        },
{
    match selected {
        Some(n) => n.clone(),
        None => if nav == Nav::Bin {
            "Bin".to_string()
        } else {
            "Your Projects".to_string()
        },
    }
}

/// The messages after a bulk action, and after emptying the bin.
pub enum BulkAction {
    Bin,
    Unarchive,
    PermanentDelete,
    Restore,
}

pub open spec fn bulk_text(a: BulkAction, n: nat) -> Seq<char> {
    match a {
        BulkAction::Bin => "Moved "@ + decimal(n) + " project(s) to Bin."@,
        BulkAction::Unarchive => "Unarchived "@ + decimal(n) + " project(s)."@,
        BulkAction::PermanentDelete => "Permanently deleted "@ + decimal(n) + " project(s)."@,
        BulkAction::Restore => "Restored "@ + decimal(n) + " project(s)."@,
    }
}

pub fn bulk_message(a: BulkAction, n: usize) -> (r: String)
    ensures
        r@ == bulk_text(a, n as nat),
{
    let num = decimal_string(n as u64);
    match a {
        BulkAction::Bin => concat3("Moved ", num.as_str(), " project(s) to Bin."),
        BulkAction::Unarchive => concat3("Unarchived ", num.as_str(), " project(s)."),
        BulkAction::PermanentDelete => concat3("Permanently deleted ", num.as_str(), " project(s)."),
        BulkAction::Restore => concat3("Restored ", num.as_str(), " project(s)."),
    }
}

pub fn empty_bin_message(removed: usize) -> (r: String)
    ensures
        r@ == (if removed == 0 {
            "Bin is already empty."@
        } else {
            "Removed "@ + decimal(removed as nat) + " project(s) from Bin."@
        }),
{
    if removed == 0 {
        "Bin is already empty.".to_string()
    } else {
        let num = decimal_string(removed as u64);
        concat3("Removed ", num.as_str(), " project(s) from Bin.")
    }
}

/// How often the builds of the open project are rescanned, in nanoseconds.
pub const RESCAN_INTERVAL_NANOS: u128 = 1_000_000_000;

/// Whether the open project's builds are due for a rescan: real-time
/// scanning is on, a project is open, and there was no scan yet or the last
/// one is at least the interval ago.
pub fn rescan_due(real_time_enabled: bool, has_selection: bool, since_last_scan: Option<u128>) -> (r: bool)
    ensures
        r == (real_time_enabled && has_selection && match since_last_scan {
            None => true,
            Some(e) => e >= RESCAN_INTERVAL_NANOS,
        }),
{
    if !real_time_enabled || !has_selection {
        return false;
    }
    match since_last_scan {
        None => true,
        Some(e) => e >= RESCAN_INTERVAL_NANOS,
    }
}

/// What starting the serve agent for a project does.
pub enum ServePlan {
    /// Only local serving exists: a project served otherwise gets a notice.
    NotImplemented,
    /// Start the agent; the terminal shows `header`; `with_token` tells
    /// whether a token protects the download page.
    Launch { header: String, with_token: bool },
}

/// The way a project is served: its recorded stream type, or
/// `localhost-token`.
pub open spec fn stream_of(p: crate::models::ProjectView) -> Seq<char> {
    match p.stream_type {
        Some(s) => s,
        None => "localhost-token"@,
    }
}

pub fn plan_bridge_serve(project: &ProjectRecord) -> (r: ServePlan)
    ensures
        !has_prefix(stream_of(project@), "localhost"@) ==> r is NotImplemented,
        has_prefix(stream_of(project@), "localhost"@) ==> (r matches ServePlan::Launch {
            header,
            with_token,
        } && header@ == "PS > serve \""@ + project.name@ + "\" --mode bridge"@ && with_token
            == has_substring(stream_of(project@), "token"@)),
{
    let stream: &str = match &project.stream_type {
        Some(s) => s.as_str(),
        None => "localhost-token",
    };
    if !starts_with(stream, "localhost") {
        return ServePlan::NotImplemented;
    }
    let header = concat3("PS > serve \"", project.name.as_str(), "\" --mode bridge");
    ServePlan::Launch { header, with_token: contains(stream, "token") }
}

/// The terminal line that shows the token.
pub fn token_line(token: &str) -> (r: String)
    ensures
        r@ == "Token: "@ + token@,
{
    concat2("Token: ", token)
}

/// The serve agent's command line for a project.
pub fn agent_arguments(projects_path: &str, project_name: &str, token: &Option<String>) -> (r: Vec<String>)
    ensures
        crate::store::strings_view(r@) == match token {
            Some(t) => seq![
                "--projects"@,
                projects_path@,
                "--project"@,
                project_name@,
                "--port"@,
                "4000"@,
                "--token"@,
                t@,
            ],
            None => seq![
                "--projects"@,
                projects_path@,
                "--project"@,
                project_name@,
                "--port"@,
                "4000"@,
            ],
        },
{
    let mut r: Vec<String> = Vec::new();
    r.push("--projects".to_string());
    r.push(projects_path.to_string());
    r.push("--project".to_string());
    r.push(project_name.to_string());
    r.push("--port".to_string());
    r.push("4000".to_string());
    match token {
        Some(t) => {
            r.push("--token".to_string());
            r.push(t.clone());
        },
        None => {},
    }
    proof {
        let v = crate::store::strings_view(r@);
        match token {
            Some(t) => {
                assert(v =~= seq![
                    "--projects"@,
                    projects_path@,
                    "--project"@,
                    project_name@,
                    "--port"@,
                    "4000"@,
                    "--token"@,
                    t@,
                ]);
            },
            None => {
                assert(v =~= seq![
                    "--projects"@,
                    projects_path@,
                    "--project"@,
                    project_name@,
                    "--port"@,
                    "4000"@,
                ]);
            },
        }
    }
    r
}

/// The dashboard's state apart from the project list.
pub struct DashboardState {
    pub nav: Nav,
    pub selected_project_name: Option<String>,
    pub selected_build_index: Option<usize>,
    pub selected_artifact_type: String,
    pub bridge_status_expanded: bool,
    pub terminal_link_popup_open: bool,
    pub terminal_link_target: Option<String>,
    pub project_path_popup_open: bool,
    pub project_path_popup_path: Option<String>,
    pub create_modal_open: bool,
    pub create_modal_step: CreateModalStep,
    pub selected_framework: ProjectType,
    pub create_form: CreateProjectForm,
    pub modal_mode: ModalMode,
    pub form_error: Option<String>,
    pub archive_selection: Selection,
    pub bin_selection: Selection,
    pub bridge_qr_url: Option<String>,
}

/// The state after the open project's page is closed: no project, build
/// or artifact type is selected, the bridge panel is folded, the link and
/// location pop-ups are closed, and everything else is as it was.
pub open spec fn details_closed(old: DashboardState, new: DashboardState) -> bool {
    &&& new.selected_project_name is None
    &&& new.selected_build_index is None
    &&& new.selected_artifact_type@ == "Type"@
    &&& !new.bridge_status_expanded
    &&& !new.terminal_link_popup_open
    &&& new.terminal_link_target is None
    &&& !new.project_path_popup_open
    &&& new.project_path_popup_path is None
    &&& same_dialogs(old, new)
    &&& same_lists(old, new)
}

/// The page, the create dialog and the form are as they were.
pub open spec fn same_dialogs(old: DashboardState, new: DashboardState) -> bool {
    &&& new.nav == old.nav
    &&& new.create_modal_open == old.create_modal_open
    &&& new.create_modal_step == old.create_modal_step
    &&& new.selected_framework == old.selected_framework
    &&& new.create_form == old.create_form
    &&& new.modal_mode == old.modal_mode
    &&& new.form_error == old.form_error
}

/// The select modes and the rendered QR link are as they were.
pub open spec fn same_lists(old: DashboardState, new: DashboardState) -> bool {
    &&& new.archive_selection == old.archive_selection
    &&& new.bin_selection == old.bin_selection
    &&& new.bridge_qr_url == old.bridge_qr_url
}

/// The open project, its page and its pop-ups are as they were.
pub open spec fn same_details(old: DashboardState, new: DashboardState) -> bool {
    &&& new.selected_project_name == old.selected_project_name
    &&& new.selected_build_index == old.selected_build_index
    &&& new.selected_artifact_type == old.selected_artifact_type
    &&& new.bridge_status_expanded == old.bridge_status_expanded
    &&& new.terminal_link_popup_open == old.terminal_link_popup_open
    &&& new.terminal_link_target == old.terminal_link_target
    &&& new.project_path_popup_open == old.project_path_popup_open
    &&& new.project_path_popup_path == old.project_path_popup_path
}

/// The state after the page of the project called `name` is opened: it is
/// the open project, no build is selected, the artifact type is reset, the
/// bridge panel is folded, and everything else is as it was.
pub open spec fn details_opened(old: DashboardState, new: DashboardState, name: Seq<char>) -> bool {
    &&& new.selected_project_name matches Some(n) && n@ == name
    &&& new.selected_build_index is None
    &&& new.selected_artifact_type@ == "Type"@
    &&& !new.bridge_status_expanded
    &&& new.terminal_link_popup_open == old.terminal_link_popup_open
    &&& new.terminal_link_target == old.terminal_link_target
    &&& new.project_path_popup_open == old.project_path_popup_open
    &&& new.project_path_popup_path == old.project_path_popup_path
    &&& same_dialogs(old, new)
    &&& same_lists(old, new)
}

/// The select mode of the page `nav`: the archive page's on the archive
/// page, the bin page's elsewhere.
pub open spec fn page_selection(s: DashboardState, nav: Nav) -> Selection {
    if nav == Nav::Archived {
        s.archive_selection
    } else {
        s.bin_selection
    }
}

/// Only the select mode of the page `nav` may have changed.
pub open spec fn only_selection_of(old: DashboardState, new: DashboardState, nav: Nav) -> bool {
    &&& same_details(old, new)
    &&& same_dialogs(old, new)
    &&& new.bridge_qr_url == old.bridge_qr_url
    &&& (nav == Nav::Archived ==> new.bin_selection == old.bin_selection)
    &&& (nav != Nav::Archived ==> new.archive_selection == old.archive_selection)
}

/// Whether the open project's page must close: a project is open and either
/// the page shown is not a project list (or the debug page) or the project
/// no longer exists.
pub open spec fn prunes(s: DashboardState, store: Seq<crate::models::ProjectView>) -> bool {
    match s.selected_project_name {
        Some(n) => !(s.nav == Nav::Home || s.nav == Nav::Archived || s.nav == Nav::Bin
            || s.nav == Nav::Debug) || !has_named(store, n@),
        None => false,
    }
}

impl DashboardState {
    /// The state the dashboard starts in, with the bridge panel as the
    /// preferences say.
    pub fn new(bridge_status_expanded: bool) -> (r: Self)
        ensures
            r.nav == Nav::Home,
            r.selected_project_name is None,
            r.selected_build_index is None,
            r.selected_artifact_type@ == "Type"@,
            r.bridge_status_expanded == bridge_status_expanded,
            !r.create_modal_open,
            r.create_modal_step == CreateModalStep::Framework,
            r.selected_framework == ProjectType::Android,
            r.create_form.name@.len() == 0,
            r.create_form.main_path@.len() == 0,
            r.create_form.project_type == ProjectType::Android,
            mode_editing(r.modal_mode) is None,
            r.form_error is None,
            !r.archive_selection@.active && r.archive_selection@.names.is_empty(),
            !r.bin_selection@.active && r.bin_selection@.names.is_empty(),
            r.bridge_qr_url is None,
    {
        DashboardState {
            nav: Nav::Home,
            selected_project_name: None,
            selected_build_index: None,
            selected_artifact_type: "Type".to_string(),
            bridge_status_expanded,
            terminal_link_popup_open: false,
            terminal_link_target: None,
            project_path_popup_open: false,
            project_path_popup_path: None,
            create_modal_open: false,
            create_modal_step: CreateModalStep::Framework,
            selected_framework: ProjectType::Android,
            create_form: CreateProjectForm::default(),
            modal_mode: ModalMode::Create,
            form_error: None,
            archive_selection: Selection::new(),
            bin_selection: Selection::new(),
            bridge_qr_url: None,
        }
    }

    /// Opens a project's page (its builds are then rescanned).
    pub fn open_project_details(&mut self, name: &str)
        ensures
            details_opened(*old(self), *final(self), name@),
    {
        self.selected_project_name = Some(name.to_string());
        self.selected_build_index = None;
        self.selected_artifact_type = "Type".to_string();
        self.bridge_status_expanded = false;
    }

    /// Closes the open project's page and its pop-ups.
    pub fn close_project_details(&mut self)
        ensures
            details_closed(*old(self), *final(self)),
    {
        self.selected_project_name = None;
        self.selected_build_index = None;
        self.selected_artifact_type = "Type".to_string();
        self.bridge_status_expanded = false;
        self.terminal_link_popup_open = false;
        self.terminal_link_target = None;
        self.project_path_popup_open = false;
        self.project_path_popup_path = None;
    }

    /// Closes the project page when the page shown is not a project list
    /// (nor the debug page), or when the open project no longer exists.
    pub fn prune_selection(&mut self, store: &ProjectStore)
        ensures
            prunes(*old(self), store@) ==> details_closed(*old(self), *final(self)),
            !prunes(*old(self), store@) ==> *final(self) == *old(self),
    {
        let on_lists = match self.nav {
            Nav::Home | Nav::Archived | Nav::Bin | Nav::Debug => true,
            _ => false,
        };
        let close = match &self.selected_project_name {
            Some(n) => !on_lists || store.find(n.as_str()).is_none(),
            None => false,
        };
        if close {
            self.close_project_details();
        }
    }

    /// Whether the list on page `nav` is in select mode (only the archive
    /// and bin pages have one).
    pub fn selecting(&self, nav: Nav) -> (r: bool)
        ensures
            r == ((nav == Nav::Archived && self.archive_selection@.active) || (nav == Nav::Bin
                && self.bin_selection@.active)),
    {
        match nav {
            Nav::Archived => self.archive_selection.is_active(),
            Nav::Bin => self.bin_selection.is_active(),
            _ => false,
        }
    }

    /// The `Select`/`Done` button of the archive and bin pages: turns the
    /// page's select mode on or off, unticking everything when it goes off.
    /// Other pages have no select mode and nothing changes.
    pub fn toggle_select_mode(&mut self, nav: Nav)
        ensures
            nav != Nav::Archived && nav != Nav::Bin ==> *final(self) == *old(self),
            nav == Nav::Archived || nav == Nav::Bin ==> {
                let before = page_selection(*old(self), nav)@;
                let after = page_selection(*final(self), nav)@;
                &&& only_selection_of(*old(self), *final(self), nav)
                &&& after.active == !before.active
                &&& after.names == if after.active {
                    before.names
                } else {
                    Set::<Seq<char>>::empty()
                }
            },
    {
        match nav {
            Nav::Archived => self.archive_selection.toggle(),
            Nav::Bin => self.bin_selection.toggle(),
            _ => {},
        }
    }

    /// Whether the card of the project called `name` is ticked on page `nav`.
    pub fn card_checked(&self, nav: Nav, name: &str) -> (r: bool)
        ensures
            r == page_selection(*self, nav)@.names.contains(name@),
    {
        if nav == Nav::Archived {
            self.archive_selection.contains(name)
        } else {
            self.bin_selection.contains(name)
        }
    }

    /// Ticks or unticks the card of the project called `name` on page `nav`.
    pub fn set_card_checked(&mut self, nav: Nav, name: &str, checked: bool)
        ensures
            only_selection_of(*old(self), *final(self), nav),
            page_selection(*final(self), nav)@.active == page_selection(*old(self), nav)@.active,
            page_selection(*final(self), nav)@.names == if checked {
                page_selection(*old(self), nav)@.names.insert(name@)
            } else {
                page_selection(*old(self), nav)@.names.remove(name@)
            },
    {
        if nav == Nav::Archived {
            self.archive_selection.set_checked(name, checked);
        } else {
            self.bin_selection.set_checked(name, checked);
        }
    }

    /// `Select all`: ticks exactly the projects the page lists.
    pub fn select_all_listed(&mut self, nav: Nav, listed: &Vec<String>)
        ensures
            only_selection_of(*old(self), *final(self), nav),
            page_selection(*final(self), nav)@.active == page_selection(*old(self), nav)@.active,
            page_selection(*final(self), nav)@.names == crate::selection::names_of(listed@),
    {
        if nav == Nav::Archived {
            self.archive_selection.select_all(listed);
        } else {
            self.bin_selection.select_all(listed);
        }
    }

    /// `Unselect all`, and what follows a bulk action on the page: nothing
    /// is ticked.
    pub fn clear_selection(&mut self, nav: Nav)
        ensures
            only_selection_of(*old(self), *final(self), nav),
            page_selection(*final(self), nav)@.active == page_selection(*old(self), nav)@.active,
            page_selection(*final(self), nav)@.names == Set::<Seq<char>>::empty(),
    {
        if nav == Nav::Archived {
            self.archive_selection.clear();
        } else {
            self.bin_selection.clear();
        }
    }

    /// The ticked project names on page `nav`.
    pub fn selected_names(&self, nav: Nav) -> (r: Vec<String>)
        ensures
            crate::selection::names_of(r@) == page_selection(*self, nav)@.names,
    {
        if nav == Nav::Archived {
            self.archive_selection.to_vec()
        } else {
            self.bin_selection.to_vec()
        }
    }

    /// Whether the QR image of `url` must be drawn anew: there is none yet,
    /// or the one there was drawn for another link.
    pub fn qr_refresh_due(&self, has_image: bool, url: &str) -> (r: bool)
        ensures
            r == (!has_image || crate::models::opt_view(self.bridge_qr_url) != Some(url@)),
    {
        if !has_image {
            return true;
        }
        match &self.bridge_qr_url {
            Some(u) => !str_equals(u.as_str(), url),
            None => true,
        }
    }

    /// Records that the QR image now shows `url`.
    pub fn note_qr_drawn(&mut self, url: &str)
        ensures
            final(self).bridge_qr_url matches Some(u) && u@ == url@,
            same_details(*old(self), *final(self)),
            same_dialogs(*old(self), *final(self)),
            final(self).archive_selection == old(self).archive_selection,
            final(self).bin_selection == old(self).bin_selection,
    {
        self.bridge_qr_url = Some(url.to_string());
    }

    /// Forgets the QR image (the bridge was stopped).
    pub fn forget_qr(&mut self)
        ensures
            final(self).bridge_qr_url is None,
            same_details(*old(self), *final(self)),
            same_dialogs(*old(self), *final(self)),
            final(self).archive_selection == old(self).archive_selection,
            final(self).bin_selection == old(self).bin_selection,
    {
        self.bridge_qr_url = None;
    }

    /// Opens the create dialog on its first step with an empty form.
    pub fn begin_create_project(&mut self)
        ensures
            final(self).create_modal_open,
            final(self).create_modal_step == CreateModalStep::Framework,
            final(self).selected_framework == ProjectType::Android,
            final(self).create_form.name@.len() == 0,
            final(self).create_form.main_path@.len() == 0,
            final(self).create_form.project_type == ProjectType::Android,
            mode_editing(final(self).modal_mode) is None,
            final(self).form_error is None,
    {
        self.form_error = None;
        self.create_form = CreateProjectForm::default();
        self.create_modal_step = CreateModalStep::Framework;
        self.selected_framework = self.create_form.project_type;
        self.modal_mode = ModalMode::Create;
        self.create_modal_open = true;
    }

    /// Opens the form for editing the project called `name`, filled with its
    /// values (an unknown stored type reads as Android). Nothing happens when
    /// there is no such project.
    pub fn begin_edit_project(&mut self, store: &ProjectStore, name: &str)
        ensures
            !has_named(store@, name@) ==> *final(self) == *old(self),
            has_named(store@, name@) ==> {
                let p = store@[index_named(store@, name@)];
                let t = match type_from_storage(p.project_type) {
                    Some(t) => t,
                    None => ProjectType::Android,
                };
                &&& final(self).create_form.name@ == p.name
                &&& final(self).create_form.main_path@ == p.main_path
                &&& final(self).create_form.project_type == t
                &&& final(self).selected_framework == t
                &&& final(self).create_modal_step == CreateModalStep::Form
                &&& mode_editing(final(self).modal_mode) == Some(p.name)
                &&& final(self).form_error is None
                &&& final(self).create_modal_open
            },
    {
        match store.find(name) {
            None => {},
            Some(k) => {
                proof {
                    crate::store::lemma_index_named(store@, name@);
                    crate::store::lemma_first_unique(store@, name@, k as int, index_named(store@, name@));
                }
                let p = &store.projects[k];
                self.create_form.name = p.name.clone();
                self.create_form.main_path = p.main_path.clone();
                self.create_form.project_type = match ProjectType::from_storage(p.project_type.as_str()) {
                    Some(t) => t,
                    None => ProjectType::Android,
                };
                self.selected_framework = self.create_form.project_type;
                self.create_modal_step = CreateModalStep::Form;
                self.modal_mode = ModalMode::Edit { original_name: p.name.clone() };
                self.form_error = None;
                self.create_modal_open = true;
            },
        }
    }

    /// `Next` on the first step: the form takes the chosen framework and the
    /// dialog moves to the form.
    pub fn modal_next(&mut self)
        ensures
            final(self).create_form.project_type == old(self).selected_framework,
            final(self).create_modal_step == CreateModalStep::Form,
            final(self).selected_framework == old(self).selected_framework,
            final(self).create_form.name == old(self).create_form.name,
            final(self).create_form.main_path == old(self).create_form.main_path,
    {
        self.create_form.project_type = self.selected_framework;
        self.create_modal_step = CreateModalStep::Form;
    }

    /// `Back` on the form: the framework choice shows the form's type again.
    pub fn modal_back(&mut self)
        ensures
            final(self).selected_framework == old(self).create_form.project_type,
            final(self).create_modal_step == CreateModalStep::Framework,
            final(self).create_form.project_type == old(self).create_form.project_type,
            final(self).create_form.name == old(self).create_form.name,
            final(self).create_form.main_path == old(self).create_form.main_path,
    {
        self.selected_framework = self.create_form.project_type;
        self.create_modal_step = CreateModalStep::Framework;
    }

    /// What submitting the form gave: on success the error is cleared and
    /// the dialog closes (the message is returned, to be shown); on failure
    /// the form shows the error and stays open.
    pub fn apply_submit(&mut self, outcome: Result<String, String>) -> (message: Option<String>)
        ensures
            match outcome {
                Ok(m) => message == Some(m) && final(self).form_error is None
                    && !final(self).create_modal_open && mode_editing(final(self).modal_mode) is None,
                Err(e) => message is None && final(self).form_error == Some(e)
                    && final(self).create_modal_open == old(self).create_modal_open
                    && final(self).modal_mode == old(self).modal_mode
                    && final(self).create_form == old(self).create_form
                    && final(self).create_modal_step == old(self).create_modal_step,
            },
    {
        match outcome {
            Ok(m) => {
                self.form_error = None;
                self.create_modal_open = false;
                self.modal_mode = ModalMode::Create;
                Some(m)
            },
            Err(e) => {
                self.form_error = Some(e);
                None
            },
        }
    }

    /// Keeps the chosen artifact type among those offered; an unknown choice
    /// becomes the first one offered.
    pub fn ensure_artifact_choice(&mut self, options: &Vec<String>)
        requires
            options@.len() > 0,
        ensures
            crate::store::strings_view(options@).contains(old(self).selected_artifact_type@)
                ==> final(self).selected_artifact_type@ == old(self).selected_artifact_type@,
            !crate::store::strings_view(options@).contains(old(self).selected_artifact_type@)
                ==> final(self).selected_artifact_type@ == options@[0]@,
    {
        let mut i: usize = 0;
        while i < options.len()
            invariant
                i <= options.len(),
                forall|j: int| 0 <= j < i ==> options@[j]@ != self.selected_artifact_type@,
            decreases options.len() - i,
        {
            if crate::text::str_equals(options[i].as_str(), self.selected_artifact_type.as_str()) {
                assert(crate::store::strings_view(options@)[i as int] == self.selected_artifact_type@);
                return;
            }
            i = i + 1;
        }
        proof {
            if crate::store::strings_view(options@).contains(self.selected_artifact_type@) {
                let j = choose|j: int| 0 <= j < options@.len() && crate::store::strings_view(options@)[j] == self.selected_artifact_type@;
                assert(options@[j]@ == self.selected_artifact_type@);
            }
        }
        self.selected_artifact_type = options[0].clone();
    }

    /// A link in the terminal was clicked: ask where to open it.
    pub fn open_terminal_link(&mut self, url: &str)
        ensures
            final(self).terminal_link_popup_open,
            final(self).terminal_link_target matches Some(t) && t@ == url@,
    {
        self.terminal_link_target = Some(url.to_string());
        self.terminal_link_popup_open = true;
    }

    /// The create dialog was closed: the next one creates.
    pub fn after_modal_closed(&mut self)
        ensures
            !final(self).create_modal_open,
            mode_editing(final(self).modal_mode) is None,
    {
        self.create_modal_open = false;
        self.modal_mode = ModalMode::Create;
    }
}

} // verus!
