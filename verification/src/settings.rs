//! The dashboard's view settings (theme, side pane, bridge panel, real-time
//! scanning, list order), how they are read from the preferences and how they
//! are written back.
use crate::config::Preferences;
use crate::text::{ascii_lower_seq, lowercase, str_equals, unicode_lowercase};
use vstd::prelude::*;
use vstd::utf8::is_ascii_chars;

verus! {

/// The colour theme the user picked.
#[derive(Clone, Copy, PartialEq, Eq, Structural, Debug)]
pub enum AppThemeMode {
    System,
    Dark,
    Light,
}

/// The field the project list is sorted by.
#[derive(Clone, Copy, PartialEq, Eq, Structural, Debug)]
pub enum ProjectSortBy {
    Title,
    DateCreated,
    ProjectType,
}

/// The direction of the project list.
#[derive(Clone, Copy, PartialEq, Eq, Structural, Debug)]
pub enum ProjectSortOrder {
    Asc,
    Desc,
}

pub open spec fn theme_for_key(key: Seq<char>) -> AppThemeMode {
    if key == "dark"@ {
        AppThemeMode::Dark
    } else if key == "light"@ {
        AppThemeMode::Light
    } else {
        AppThemeMode::System
    }
}

pub open spec fn theme_pref_text(m: AppThemeMode) -> Seq<char> {
    match m {
        AppThemeMode::System => "system"@,
        AppThemeMode::Dark => "dark"@,
        AppThemeMode::Light => "light"@,
    }
}

pub open spec fn sort_by_for_key(key: Seq<char>) -> ProjectSortBy {
    if key == "date created"@ || key == "date_created"@ || key == "created"@ {
        ProjectSortBy::DateCreated
    } else if key == "project type"@ || key == "project_type"@ || key == "type"@ {
        ProjectSortBy::ProjectType
    } else {
        ProjectSortBy::Title
    }
}

pub open spec fn sort_by_pref_text(b: ProjectSortBy) -> Seq<char> {
    match b {
        ProjectSortBy::Title => "Title"@,
        ProjectSortBy::DateCreated => "Date Created"@,
        ProjectSortBy::ProjectType => "Project Type"@,
    }
}

pub open spec fn sort_by_label_text(b: ProjectSortBy) -> Seq<char> {
    match b {
        ProjectSortBy::Title => "Project Title"@,
        ProjectSortBy::DateCreated => "Date Created"@,
        ProjectSortBy::ProjectType => "Project Type"@,
    }
}

pub open spec fn sort_order_for_key(key: Seq<char>) -> ProjectSortOrder {
    if key == "desc"@ || key == "descending"@ {
        ProjectSortOrder::Desc
    } else {
        ProjectSortOrder::Asc
    }
}

pub open spec fn sort_order_pref_text(o: ProjectSortOrder) -> Seq<char> {
    match o {
        ProjectSortOrder::Asc => "Asc"@,
        ProjectSortOrder::Desc => "Desc"@,
    }
}

pub open spec fn sort_order_label_text(o: ProjectSortOrder) -> Seq<char> {
    match o {
        ProjectSortOrder::Asc => "Ascending"@,
        ProjectSortOrder::Desc => "Descending"@,
    }
}

impl AppThemeMode {
    /// The theme named by an already lower-cased preference value.
    pub fn from_lowered(key: &str) -> (r: Self)
        ensures
            r == theme_for_key(key@),
    {
        if str_equals(key, "dark") {
            AppThemeMode::Dark
        } else if str_equals(key, "light") {
            AppThemeMode::Light
        } else {
            AppThemeMode::System
        }
    }

    /// Reads the theme preference, ignoring case.
    pub fn from_pref(value: &str) -> (r: Self)
        ensures
            r == theme_for_key(unicode_lowercase(value@)),
            is_ascii_chars(value@) ==> r == theme_for_key(ascii_lower_seq(value@)),
    {
        let key = lowercase(value);
        Self::from_lowered(key.as_str())
    }

    /// The value written to the preferences.
    pub fn as_pref(self) -> (r: &'static str)
        ensures
            r@ == theme_pref_text(self),
    {
        match self {
            AppThemeMode::System => "system",
            AppThemeMode::Dark => "dark",
            AppThemeMode::Light => "light",
        }
    }
}

impl ProjectSortBy {
    /// The sort field named by an already lower-cased preference value.
    pub fn from_lowered(key: &str) -> (r: Self)
        ensures
            r == sort_by_for_key(key@),
    {
        if str_equals(key, "date created") || str_equals(key, "date_created") || str_equals(
            key,
            "created",
        ) {
            ProjectSortBy::DateCreated
        } else if str_equals(key, "project type") || str_equals(key, "project_type")
            || str_equals(key, "type") {
            ProjectSortBy::ProjectType
        } else {
            ProjectSortBy::Title
        }
    }

    /// Reads the sort field preference, ignoring case; anything unknown is
    /// the title.
    pub fn from_pref(value: &str) -> (r: Self)
        ensures
            r == sort_by_for_key(unicode_lowercase(value@)),
            is_ascii_chars(value@) ==> r == sort_by_for_key(ascii_lower_seq(value@)),
    {
        let key = lowercase(value);
        Self::from_lowered(key.as_str())
    }

    pub fn as_pref(self) -> (r: &'static str)
        ensures
            r@ == sort_by_pref_text(self),
    {
        match self {
            ProjectSortBy::Title => "Title",
            ProjectSortBy::DateCreated => "Date Created",
            ProjectSortBy::ProjectType => "Project Type",
        }
    }

    pub fn label(self) -> (r: &'static str)
        ensures
            r@ == sort_by_label_text(self),
    {
        match self {
            ProjectSortBy::Title => "Project Title",
            ProjectSortBy::DateCreated => "Date Created",
            ProjectSortBy::ProjectType => "Project Type",
        }
    }
}

impl ProjectSortOrder {
    /// The direction named by an already lower-cased preference value.
    pub fn from_lowered(key: &str) -> (r: Self)
        ensures
            r == sort_order_for_key(key@),
    {
        if str_equals(key, "desc") || str_equals(key, "descending") {
            ProjectSortOrder::Desc
        } else {
            ProjectSortOrder::Asc
        }
    }

    /// Reads the direction preference, ignoring case; anything unknown is
    /// ascending.
    pub fn from_pref(value: &str) -> (r: Self)
        ensures
            r == sort_order_for_key(unicode_lowercase(value@)),
            is_ascii_chars(value@) ==> r == sort_order_for_key(ascii_lower_seq(value@)),
    {
        let key = lowercase(value);
        Self::from_lowered(key.as_str())
    }

    pub fn as_pref(self) -> (r: &'static str)
        ensures
            r@ == sort_order_pref_text(self),
    {
        match self {
            ProjectSortOrder::Asc => "Asc",
            ProjectSortOrder::Desc => "Desc",
        }
    }

    pub fn label(self) -> (r: &'static str)
        ensures
            r@ == sort_order_label_text(self),
    {
        match self {
            ProjectSortOrder::Asc => "Ascending",
            ProjectSortOrder::Desc => "Descending",
        }
    }
}

/// The bit pattern of the 32-bit float 260.0, the side pane's width when
/// the preferences give none.
pub const DEFAULT_SIDEBAR_WIDTH_BITS: u32 = 0x4382_0000;

/// The view settings that the preferences hold.
#[derive(Clone, Copy, PartialEq, Eq, Structural, Debug)]
pub struct ViewSettings {
    pub theme_mode: AppThemeMode,
    pub sidebar_width_bits: u32,
    pub sidebar_visible: bool,
    pub bridge_status_expanded: bool,
    pub real_time_enabled: bool,
    pub sort_by: ProjectSortBy,
    pub sort_order: ProjectSortOrder,
}

pub open spec fn settings_of(p: Preferences) -> ViewSettings {
    ViewSettings {
        theme_mode: theme_for_key(unicode_lowercase(p.settings.theme@)),
        sidebar_width_bits: match p.config.side_pane.width {
            Some(w) => w,
            None => DEFAULT_SIDEBAR_WIDTH_BITS,
        },
        sidebar_visible: !p.config.side_pane.collapsed,
        bridge_status_expanded: !p.project_settings.build_status_collapse,
        real_time_enabled: p.project_settings.real_time,
        sort_by: sort_by_for_key(unicode_lowercase(p.config.project_list.sort.sort_by@)),
        sort_order: sort_order_for_key(unicode_lowercase(p.config.project_list.sort.order@)),
    }
}

/// The three preference texts that are read ignoring case are ASCII.
pub open spec fn prefs_ascii(p: Preferences) -> bool {
    &&& is_ascii_chars(p.settings.theme@)
    &&& is_ascii_chars(p.config.project_list.sort.sort_by@)
    &&& is_ascii_chars(p.config.project_list.sort.order@)
}

/// `settings_of` for preferences whose case-insensitive texts are ASCII.
pub open spec fn ascii_settings_of(p: Preferences) -> ViewSettings {
    ViewSettings {
        theme_mode: theme_for_key(ascii_lower_seq(p.settings.theme@)),
        sidebar_width_bits: match p.config.side_pane.width {
            Some(w) => w,
            None => DEFAULT_SIDEBAR_WIDTH_BITS,
        },
        sidebar_visible: !p.config.side_pane.collapsed,
        bridge_status_expanded: !p.project_settings.build_status_collapse,
        real_time_enabled: p.project_settings.real_time,
        sort_by: sort_by_for_key(ascii_lower_seq(p.config.project_list.sort.sort_by@)),
        sort_order: sort_order_for_key(ascii_lower_seq(p.config.project_list.sort.order@)),
    }
}

/// The view settings the dashboard starts with, read from the preferences.
pub fn view_settings_from(p: &Preferences) -> (r: ViewSettings)
    ensures
        r == settings_of(*p),
        prefs_ascii(*p) ==> r == ascii_settings_of(*p),
{
    let width = match p.config.side_pane.width {
        Some(w) => w,
        None => DEFAULT_SIDEBAR_WIDTH_BITS,
    };
    ViewSettings {
        theme_mode: AppThemeMode::from_pref(p.settings.theme.as_str()),
        sidebar_width_bits: width,
        sidebar_visible: !p.config.side_pane.collapsed,
        bridge_status_expanded: !p.project_settings.build_status_collapse,
        real_time_enabled: p.project_settings.real_time,
        sort_by: ProjectSortBy::from_pref(p.config.project_list.sort.sort_by.as_str()),
        sort_order: ProjectSortOrder::from_pref(p.config.project_list.sort.order.as_str()),
    }
}

/// Whether the bits are those of a 32-bit float NaN: all exponent bits set
/// and a non-zero fraction.
pub open spec fn is_nan_bits(b: u32) -> bool {
    (b & 0x7f80_0000u32) == 0x7f80_0000u32 && (b & 0x007f_ffffu32) != 0
}

/// `==` on the 32-bit floats with these bit patterns: a NaN equals nothing,
/// the two zeros are equal, and other values are equal when their bits are.
pub open spec fn float_bits_eq(a: u32, b: u32) -> bool {
    &&& !is_nan_bits(a)
    &&& !is_nan_bits(b)
    &&& (a == b || ((a & 0x7fff_ffffu32) == 0 && (b & 0x7fff_ffffu32) == 0))
}

/// Compares the 32-bit floats with these bit patterns as `==` does.
pub fn float_bits_equal(a: u32, b: u32) -> (r: bool)
    ensures
        r == float_bits_eq(a, b),
{
    let a_nan = (a & 0x7f80_0000u32) == 0x7f80_0000u32 && (a & 0x007f_ffffu32) != 0;
    let b_nan = (b & 0x7f80_0000u32) == 0x7f80_0000u32 && (b & 0x007f_ffffu32) != 0;
    !a_nan && !b_nan && (a == b || ((a & 0x7fff_ffffu32) == 0 && (b & 0x7fff_ffffu32) == 0))
}

/// The stored side pane width already equals (as floats) the one to write.
pub open spec fn width_kept(stored: Option<u32>, bits: u32) -> bool {
    match stored {
        Some(w) => float_bits_eq(w, bits),
        None => false,
    }
}

/// The preferences with the view settings `s` written into them. A stored
/// width equal as a float to the current one is left as it is.
pub open spec fn written(old: Preferences, new: Preferences, s: ViewSettings) -> bool {
    &&& new.settings.theme@ == theme_pref_text(s.theme_mode)
    &&& new.settings.font_size == old.settings.font_size
    &&& new.config.side_pane.width == if width_kept(old.config.side_pane.width, s.sidebar_width_bits) {
        old.config.side_pane.width
    } else {
        Some(s.sidebar_width_bits)
    }
    &&& new.config.side_pane.collapsed == !s.sidebar_visible
    &&& new.project_settings.build_status_collapse == !s.bridge_status_expanded
    &&& new.project_settings.real_time == s.real_time_enabled
    &&& new.config.project_list.sort.sort_by@ == sort_by_pref_text(s.sort_by)
    &&& new.config.project_list.sort.order@ == sort_order_pref_text(s.sort_order)
}

/// Whether writing `s` changes any stored value of `p`.
pub open spec fn differs(p: Preferences, s: ViewSettings) -> bool {
    ||| p.settings.theme@ != theme_pref_text(s.theme_mode)
    ||| !width_kept(p.config.side_pane.width, s.sidebar_width_bits)
    ||| p.config.side_pane.collapsed != !s.sidebar_visible
    ||| p.project_settings.build_status_collapse != !s.bridge_status_expanded
    ||| p.project_settings.real_time != s.real_time_enabled
    ||| p.config.project_list.sort.sort_by@ != sort_by_pref_text(s.sort_by)
    ||| p.config.project_list.sort.order@ != sort_order_pref_text(s.sort_order)
}

/// Writes the current view settings into the preferences; returns whether
/// anything changed (and so whether the preferences must be saved). Values
/// that are already right are left untouched.
pub fn sync_preferences(p: &mut Preferences, s: &ViewSettings) -> (changed: bool)
    ensures
        written(*old(p), *final(p), *s),
        changed == differs(*old(p), *s),
        !changed ==> *final(p) == *old(p),
{
    let mut changed = false;
    let theme = s.theme_mode.as_pref();
    if !str_equals(p.settings.theme.as_str(), theme) {
        p.settings.theme = theme.to_string();
        changed = true;
    }
    let keep_width = match p.config.side_pane.width {
        Some(w) => float_bits_equal(w, s.sidebar_width_bits),
        None => false,
    };
    if !keep_width {
        p.config.side_pane.width = Some(s.sidebar_width_bits);
        changed = true;
    }
    if p.config.side_pane.collapsed != !s.sidebar_visible {
        p.config.side_pane.collapsed = !s.sidebar_visible;
        changed = true;
    }
    if p.project_settings.build_status_collapse != !s.bridge_status_expanded {
        p.project_settings.build_status_collapse = !s.bridge_status_expanded;
        changed = true;
    }
    if p.project_settings.real_time != s.real_time_enabled {
        p.project_settings.real_time = s.real_time_enabled;
        changed = true;
    }
    let by = s.sort_by.as_pref();
    if !str_equals(p.config.project_list.sort.sort_by.as_str(), by) {
        p.config.project_list.sort.sort_by = by.to_string();
        changed = true;
    }
    let order = s.sort_order.as_pref();
    if !str_equals(p.config.project_list.sort.order.as_str(), order) {
        p.config.project_list.sort.order = order.to_string();
        changed = true;
    }
    changed
}

proof fn lemma_pref_texts_ascii(s: ViewSettings)
    ensures
        is_ascii_chars(theme_pref_text(s.theme_mode)),
        ascii_lower_seq(theme_pref_text(s.theme_mode)) == theme_pref_text(s.theme_mode),
        theme_for_key(theme_pref_text(s.theme_mode)) == s.theme_mode,
        is_ascii_chars(sort_by_pref_text(s.sort_by)),
        sort_by_for_key(ascii_lower_seq(sort_by_pref_text(s.sort_by))) == s.sort_by,
        is_ascii_chars(sort_order_pref_text(s.sort_order)),
        sort_order_for_key(ascii_lower_seq(sort_order_pref_text(s.sort_order))) == s.sort_order,
{
    reveal_strlit("system");
    reveal_strlit("dark");
    reveal_strlit("light");
    reveal_strlit("Title");
    reveal_strlit("Date Created");
    reveal_strlit("Project Type");
    reveal_strlit("date created");
    reveal_strlit("date_created");
    reveal_strlit("created");
    reveal_strlit("project type");
    reveal_strlit("project_type");
    reveal_strlit("type");
    reveal_strlit("Asc");
    reveal_strlit("Desc");
    reveal_strlit("desc");
    reveal_strlit("descending");
    match s.theme_mode {
        AppThemeMode::System => {
            assert(ascii_lower_seq("system"@) =~= "system"@);
            assert("system"@[0] != "dark"@[0]);
            assert("system"@[0] != "light"@[0]);
        },
        AppThemeMode::Dark => {
            assert(ascii_lower_seq("dark"@) =~= "dark"@);
        },
        AppThemeMode::Light => {
            assert(ascii_lower_seq("light"@) =~= "light"@);
            assert("light"@[0] != "dark"@[0]);
        },
    }
    match s.sort_by {
        ProjectSortBy::Title => {
            let k = ascii_lower_seq("Title"@);
            assert(k[0] == 't');
            assert(k.len() == 5);
            assert(k[1] == 'i');
            assert(k != "date created"@ && k != "date_created"@ && k != "created"@);
            assert(k != "project type"@ && k != "project_type"@);
            assert(k != "type"@) by {
                assert("type"@.len() != k.len());
            }
        },
        ProjectSortBy::DateCreated => {
            assert(ascii_lower_seq("Date Created"@) =~= "date created"@);
        },
        ProjectSortBy::ProjectType => {
            let k = ascii_lower_seq("Project Type"@);
            assert(k =~= "project type"@);
            assert(k[0] != "date created"@[0] && k[0] != "date_created"@[0] && k[0]
                != "created"@[0]);
        },
    }
    match s.sort_order {
        ProjectSortOrder::Asc => {
            let k = ascii_lower_seq("Asc"@);
            assert(k[0] == 'a');
            assert(k[0] != "desc"@[0] && k[0] != "descending"@[0]);
        },
        ProjectSortOrder::Desc => {
            assert(ascii_lower_seq("Desc"@) =~= "desc"@);
        },
    }
}

/// The view settings read back equal those written, the side pane width
/// equal as a float or bit for bit.
pub open spec fn same_view(r: ViewSettings, s: ViewSettings) -> bool {
    &&& r.theme_mode == s.theme_mode
    &&& (r.sidebar_width_bits == s.sidebar_width_bits || float_bits_eq(
        r.sidebar_width_bits,
        s.sidebar_width_bits,
    ))
    &&& r.sidebar_visible == s.sidebar_visible
    &&& r.bridge_status_expanded == s.bridge_status_expanded
    &&& r.real_time_enabled == s.real_time_enabled
    &&& r.sort_by == s.sort_by
    &&& r.sort_order == s.sort_order
}

/// Reading back the preferences that `sync_preferences` wrote gives the view
/// settings that were written: the written texts are ASCII, and read as
/// `view_settings_from` reads ASCII texts they name the written settings.
pub proof fn sync_then_read(old: Preferences, new: Preferences, s: ViewSettings)
    requires
        written(old, new, s),
    ensures
        prefs_ascii(new),
        same_view(ascii_settings_of(new), s),
{
    lemma_pref_texts_ascii(s);
}

/// Once the view settings are written, writing the same settings again
/// changes nothing: the preferences are saved at most once for them. (A NaN
/// width equals nothing, so it is written again on every sync.)
pub proof fn sync_settles(old: Preferences, new: Preferences, s: ViewSettings)
    requires
        written(old, new, s),
        !is_nan_bits(s.sidebar_width_bits),
    ensures
        !differs(new, s),
{
}

/// Each theme, sort key and sort order, written as its preference text and
/// read back ignoring case, is itself; the texts are ASCII.
pub proof fn preference_texts_roundtrip(
    theme: AppThemeMode,
    by: ProjectSortBy,
    order: ProjectSortOrder,
)
    ensures
        is_ascii_chars(theme_pref_text(theme)),
        theme_for_key(ascii_lower_seq(theme_pref_text(theme))) == theme,
        is_ascii_chars(sort_by_pref_text(by)),
        sort_by_for_key(ascii_lower_seq(sort_by_pref_text(by))) == by,
        is_ascii_chars(sort_order_pref_text(order)),
        sort_order_for_key(ascii_lower_seq(sort_order_pref_text(order))) == order,
{
    lemma_pref_texts_ascii(
        ViewSettings {
            theme_mode: theme,
            sidebar_width_bits: 0,
            sidebar_visible: true,
            bridge_status_expanded: true,
            real_time_enabled: true,
            sort_by: by,
            sort_order: order,
        },
    );
}

} // verus!
