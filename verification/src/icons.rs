//! The icons of the interface.
use vstd::prelude::*;

verus! {

#[derive(Clone, Copy, PartialEq, Eq, Structural, Debug)]
pub enum IconKind {
    Back,
    Briefcase,
    Archive,
    Trash,
    MoreVert,
    Palette,
    PanelHide,
    PanelShow,
    Sort,
    Clear,
    About,
    Feedback,
    Privacy,
    Broadcast,
    Bell,
    BellSlash,
    BridgeStatusExpand,
    BridgeStatusCollapse,
    ActionEdit,
    ActionArchive,
    ActionDelete,
    Bug,
    Star,
    StarFilled,
}

/// The icon of the status bar: a bell when there is a message, else a
/// crossed-out bell.
pub fn status_icon(has_message: bool) -> (r: IconKind)
    ensures
        r == (if has_message {
            IconKind::Bell
        } else {
            IconKind::BellSlash
        }),
{
    if has_message {
        IconKind::Bell
    } else {
        IconKind::BellSlash
    }
}

/// The bridge panel's toggle: collapse when it is expanded, else expand.
pub fn bridge_toggle_icon(expanded: bool) -> (r: IconKind)
    ensures
        r == (if expanded {
            IconKind::BridgeStatusCollapse
        } else {
            IconKind::BridgeStatusExpand
        }),
{
    if expanded {
        IconKind::BridgeStatusCollapse
    } else {
        IconKind::BridgeStatusExpand
    }
}

/// The file, under the icons folder, that draws `icon` in the dark or the
/// light theme. The delete action and the filled star look the same in both.
pub open spec fn icon_file(dark: bool, icon: IconKind) -> Seq<char> {
    match (dark, icon) {
        (true, IconKind::Bug) => "bug_dark.svg"@,
        (false, IconKind::Bug) => "bug_light.svg"@,
        (true, IconKind::Back) => "caret_left_dark.svg"@,
        (false, IconKind::Back) => "caret_left_light.svg"@,
        (true, IconKind::Briefcase) => "briefcase_dark.svg"@,
        (false, IconKind::Briefcase) => "briefcase_light.svg"@,
        (true, IconKind::Archive) => "archive_dark.svg"@,
        (false, IconKind::Archive) => "archive_light.svg"@,
        (true, IconKind::Trash) => "trash_dark.svg"@,
        (false, IconKind::Trash) => "trash_light.svg"@,
        (true, IconKind::MoreVert) => "more_vert_dark.svg"@,
        (false, IconKind::MoreVert) => "more_vert_light.svg"@,
        (true, IconKind::Palette) => "palette_dark.svg"@,
        (false, IconKind::Palette) => "palette_light.svg"@,
        (true, IconKind::PanelHide) => "panel_hide_dark.svg"@,
        (false, IconKind::PanelHide) => "panel_hide_light.svg"@,
        (true, IconKind::PanelShow) => "panel_show_dark.svg"@,
        (false, IconKind::PanelShow) => "panel_show_light.svg"@,
        (true, IconKind::Sort) => "sort_dark.svg"@,
        (false, IconKind::Sort) => "sort_light.svg"@,
        (true, IconKind::Clear) => "clear_dark.svg"@,
        (false, IconKind::Clear) => "clear_light.svg"@,
        (true, IconKind::About) => "about_dark.svg"@,
        (false, IconKind::About) => "about_light.svg"@,
        (true, IconKind::Feedback) => "feedback_dark.svg"@,
        (false, IconKind::Feedback) => "feedback_light.svg"@,
        (true, IconKind::Privacy) => "privacy_dark.svg"@,
        (false, IconKind::Privacy) => "privacy_light.svg"@,
        (true, IconKind::Broadcast) => "broadcast_dark.svg"@,
        (false, IconKind::Broadcast) => "broadcast_light.svg"@,
        (true, IconKind::Bell) => "bell_dark.svg"@,
        (false, IconKind::Bell) => "bell_light.svg"@,
        (true, IconKind::BellSlash) => "bell_slash_dark.svg"@,
        (false, IconKind::BellSlash) => "bell_slash_light.svg"@,
        (true, IconKind::BridgeStatusExpand) => "bridge_status_expand_dark.svg"@,
        (false, IconKind::BridgeStatusExpand) => "bridge_status_expand_light.svg"@,
        (true, IconKind::BridgeStatusCollapse) => "bridge_status_collapse_dark.svg"@,
        (false, IconKind::BridgeStatusCollapse) => "bridge_status_collapse_light.svg"@,
        (true, IconKind::ActionEdit) => "action_edit_dark.svg"@,
        (false, IconKind::ActionEdit) => "action_edit_light.svg"@,
        (true, IconKind::ActionArchive) => "action_archive_dark.svg"@,
        (false, IconKind::ActionArchive) => "action_archive_light.svg"@,
        (_, IconKind::ActionDelete) => "action_delete_red.svg"@,
        (true, IconKind::Star) => "star_dark.svg"@,
        (false, IconKind::Star) => "star_light.svg"@,
        (_, IconKind::StarFilled) => "star-fill.svg"@,
    }
}

pub fn icon_file_name(dark: bool, icon: IconKind) -> (r: &'static str)
    ensures
        r@ == icon_file(dark, icon),
{
    match (dark, icon) {
        (true, IconKind::Bug) => "bug_dark.svg",
        (false, IconKind::Bug) => "bug_light.svg",
        (true, IconKind::Back) => "caret_left_dark.svg",
        (false, IconKind::Back) => "caret_left_light.svg",
        (true, IconKind::Briefcase) => "briefcase_dark.svg",
        (false, IconKind::Briefcase) => "briefcase_light.svg",
        (true, IconKind::Archive) => "archive_dark.svg",
        (false, IconKind::Archive) => "archive_light.svg",
        (true, IconKind::Trash) => "trash_dark.svg",
        (false, IconKind::Trash) => "trash_light.svg",
        (true, IconKind::MoreVert) => "more_vert_dark.svg",
        (false, IconKind::MoreVert) => "more_vert_light.svg",
        (true, IconKind::Palette) => "palette_dark.svg",
        (false, IconKind::Palette) => "palette_light.svg",
        (true, IconKind::PanelHide) => "panel_hide_dark.svg",
        (false, IconKind::PanelHide) => "panel_hide_light.svg",
        (true, IconKind::PanelShow) => "panel_show_dark.svg",
        (false, IconKind::PanelShow) => "panel_show_light.svg",
        (true, IconKind::Sort) => "sort_dark.svg",
        (false, IconKind::Sort) => "sort_light.svg",
        (true, IconKind::Clear) => "clear_dark.svg",
        (false, IconKind::Clear) => "clear_light.svg",
        (true, IconKind::About) => "about_dark.svg",
        (false, IconKind::About) => "about_light.svg",
        (true, IconKind::Feedback) => "feedback_dark.svg",
        (false, IconKind::Feedback) => "feedback_light.svg",
        (true, IconKind::Privacy) => "privacy_dark.svg",
        (false, IconKind::Privacy) => "privacy_light.svg",
        (true, IconKind::Broadcast) => "broadcast_dark.svg",
        (false, IconKind::Broadcast) => "broadcast_light.svg",
        (true, IconKind::Bell) => "bell_dark.svg",
        (false, IconKind::Bell) => "bell_light.svg",
        (true, IconKind::BellSlash) => "bell_slash_dark.svg",
        (false, IconKind::BellSlash) => "bell_slash_light.svg",
        (true, IconKind::BridgeStatusExpand) => "bridge_status_expand_dark.svg",
        (false, IconKind::BridgeStatusExpand) => "bridge_status_expand_light.svg",
        (true, IconKind::BridgeStatusCollapse) => "bridge_status_collapse_dark.svg",
        (false, IconKind::BridgeStatusCollapse) => "bridge_status_collapse_light.svg",
        (true, IconKind::ActionEdit) => "action_edit_dark.svg",
        (false, IconKind::ActionEdit) => "action_edit_light.svg",
        (true, IconKind::ActionArchive) => "action_archive_dark.svg",
        (false, IconKind::ActionArchive) => "action_archive_light.svg",
        (_, IconKind::ActionDelete) => "action_delete_red.svg",
        (true, IconKind::Star) => "star_dark.svg",
        (false, IconKind::Star) => "star_light.svg",
        (_, IconKind::StarFilled) => "star-fill.svg",
    }
}

/// The text `s` ends with `suffix`.
pub open spec fn ends_with(s: Seq<char>, suffix: Seq<char>) -> bool {
    suffix.len() <= s.len() && s.subrange(s.len() - suffix.len(), s.len() as int) == suffix
}

/// The delete action and the filled star use one file in both themes;
/// every other icon has a dark file ending in `_dark.svg` and a different
/// light file ending in `_light.svg`.
pub proof fn icon_files_follow_theme(icon: IconKind)
    ensures
        (icon == IconKind::ActionDelete || icon == IconKind::StarFilled) ==> icon_file(true, icon)
            == icon_file(false, icon),
        !(icon == IconKind::ActionDelete || icon == IconKind::StarFilled) ==> {
            &&& ends_with(icon_file(true, icon), "_dark.svg"@)
            &&& ends_with(icon_file(false, icon), "_light.svg"@)
            &&& icon_file(true, icon) != icon_file(false, icon)
        },
{
    reveal_strlit("_dark.svg");
    reveal_strlit("_light.svg");
    match icon {
        IconKind::Bug => {
            reveal_strlit("bug_dark.svg");
            reveal_strlit("bug_light.svg");
            assert("bug_dark.svg"@.subrange(3, 12) =~= "_dark.svg"@);
            assert("bug_light.svg"@.subrange(3, 13) =~= "_light.svg"@);
        },
        IconKind::Back => {
            reveal_strlit("caret_left_dark.svg");
            reveal_strlit("caret_left_light.svg");
            assert("caret_left_dark.svg"@.subrange(10, 19) =~= "_dark.svg"@);
            assert("caret_left_light.svg"@.subrange(10, 20) =~= "_light.svg"@);
        },
        IconKind::Briefcase => {
            reveal_strlit("briefcase_dark.svg");
            reveal_strlit("briefcase_light.svg");
            assert("briefcase_dark.svg"@.subrange(9, 18) =~= "_dark.svg"@);
            assert("briefcase_light.svg"@.subrange(9, 19) =~= "_light.svg"@);
        },
        IconKind::Archive => {
            reveal_strlit("archive_dark.svg");
            reveal_strlit("archive_light.svg");
            assert("archive_dark.svg"@.subrange(7, 16) =~= "_dark.svg"@);
            assert("archive_light.svg"@.subrange(7, 17) =~= "_light.svg"@);
        },
        IconKind::Trash => {
            reveal_strlit("trash_dark.svg");
            reveal_strlit("trash_light.svg");
            assert("trash_dark.svg"@.subrange(5, 14) =~= "_dark.svg"@);
            assert("trash_light.svg"@.subrange(5, 15) =~= "_light.svg"@);
        },
        IconKind::MoreVert => {
            reveal_strlit("more_vert_dark.svg");
            reveal_strlit("more_vert_light.svg");
            assert("more_vert_dark.svg"@.subrange(9, 18) =~= "_dark.svg"@);
            assert("more_vert_light.svg"@.subrange(9, 19) =~= "_light.svg"@);
        },
        IconKind::Palette => {
            reveal_strlit("palette_dark.svg");
            reveal_strlit("palette_light.svg");
            assert("palette_dark.svg"@.subrange(7, 16) =~= "_dark.svg"@);
            assert("palette_light.svg"@.subrange(7, 17) =~= "_light.svg"@);
        },
        IconKind::PanelHide => {
            reveal_strlit("panel_hide_dark.svg");
            reveal_strlit("panel_hide_light.svg");
            assert("panel_hide_dark.svg"@.subrange(10, 19) =~= "_dark.svg"@);
            assert("panel_hide_light.svg"@.subrange(10, 20) =~= "_light.svg"@);
        },
        IconKind::PanelShow => {
            reveal_strlit("panel_show_dark.svg");
            reveal_strlit("panel_show_light.svg");
            assert("panel_show_dark.svg"@.subrange(10, 19) =~= "_dark.svg"@);
            assert("panel_show_light.svg"@.subrange(10, 20) =~= "_light.svg"@);
        },
        IconKind::Sort => {
            reveal_strlit("sort_dark.svg");
            reveal_strlit("sort_light.svg");
            assert("sort_dark.svg"@.subrange(4, 13) =~= "_dark.svg"@);
            assert("sort_light.svg"@.subrange(4, 14) =~= "_light.svg"@);
        },
        IconKind::Clear => {
            reveal_strlit("clear_dark.svg");
            reveal_strlit("clear_light.svg");
            assert("clear_dark.svg"@.subrange(5, 14) =~= "_dark.svg"@);
            assert("clear_light.svg"@.subrange(5, 15) =~= "_light.svg"@);
        },
        IconKind::About => {
            reveal_strlit("about_dark.svg");
            reveal_strlit("about_light.svg");
            assert("about_dark.svg"@.subrange(5, 14) =~= "_dark.svg"@);
            assert("about_light.svg"@.subrange(5, 15) =~= "_light.svg"@);
        },
        IconKind::Feedback => {
            reveal_strlit("feedback_dark.svg");
            reveal_strlit("feedback_light.svg");
            assert("feedback_dark.svg"@.subrange(8, 17) =~= "_dark.svg"@);
            assert("feedback_light.svg"@.subrange(8, 18) =~= "_light.svg"@);
        },
        IconKind::Privacy => {
            reveal_strlit("privacy_dark.svg");
            reveal_strlit("privacy_light.svg");
            assert("privacy_dark.svg"@.subrange(7, 16) =~= "_dark.svg"@);
            assert("privacy_light.svg"@.subrange(7, 17) =~= "_light.svg"@);
        },
        IconKind::Broadcast => {
            reveal_strlit("broadcast_dark.svg");
            reveal_strlit("broadcast_light.svg");
            assert("broadcast_dark.svg"@.subrange(9, 18) =~= "_dark.svg"@);
            assert("broadcast_light.svg"@.subrange(9, 19) =~= "_light.svg"@);
        },
        IconKind::Bell => {
            reveal_strlit("bell_dark.svg");
            reveal_strlit("bell_light.svg");
            assert("bell_dark.svg"@.subrange(4, 13) =~= "_dark.svg"@);
            assert("bell_light.svg"@.subrange(4, 14) =~= "_light.svg"@);
        },
        IconKind::BellSlash => {
            reveal_strlit("bell_slash_dark.svg");
            reveal_strlit("bell_slash_light.svg");
            assert("bell_slash_dark.svg"@.subrange(10, 19) =~= "_dark.svg"@);
            assert("bell_slash_light.svg"@.subrange(10, 20) =~= "_light.svg"@);
        },
        IconKind::BridgeStatusExpand => {
            reveal_strlit("bridge_status_expand_dark.svg");
            reveal_strlit("bridge_status_expand_light.svg");
            assert("bridge_status_expand_dark.svg"@.subrange(20, 29) =~= "_dark.svg"@);
            assert("bridge_status_expand_light.svg"@.subrange(20, 30) =~= "_light.svg"@);
        },
        IconKind::BridgeStatusCollapse => {
            reveal_strlit("bridge_status_collapse_dark.svg");
            reveal_strlit("bridge_status_collapse_light.svg");
            assert("bridge_status_collapse_dark.svg"@.subrange(22, 31) =~= "_dark.svg"@);
            assert("bridge_status_collapse_light.svg"@.subrange(22, 32) =~= "_light.svg"@);
        },
        IconKind::ActionEdit => {
            reveal_strlit("action_edit_dark.svg");
            reveal_strlit("action_edit_light.svg");
            assert("action_edit_dark.svg"@.subrange(11, 20) =~= "_dark.svg"@);
            assert("action_edit_light.svg"@.subrange(11, 21) =~= "_light.svg"@);
        },
        IconKind::ActionArchive => {
            reveal_strlit("action_archive_dark.svg");
            reveal_strlit("action_archive_light.svg");
            assert("action_archive_dark.svg"@.subrange(14, 23) =~= "_dark.svg"@);
            assert("action_archive_light.svg"@.subrange(14, 24) =~= "_light.svg"@);
        },
        IconKind::Star => {
            reveal_strlit("star_dark.svg");
            reveal_strlit("star_light.svg");
            assert("star_dark.svg"@.subrange(4, 13) =~= "_dark.svg"@);
            assert("star_light.svg"@.subrange(4, 14) =~= "_light.svg"@);
        },
        IconKind::ActionDelete => {},
        IconKind::StarFilled => {},
    }
}

} // verus!
