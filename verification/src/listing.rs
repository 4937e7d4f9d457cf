//! The project list as the dashboard shows it: which projects a page shows,
//! which match the search text, and in what order.
use crate::models::{projects_view, type_from_storage, type_label, ProjectRecord, ProjectType, ProjectView};
use crate::settings::{ProjectSortBy, ProjectSortOrder};
use crate::sorting::{
    is_permutation, is_sorted_by_keys, is_stable_by_keys, keys_view, stable_sort_order, KeyView,
    SortKey,
};
use crate::store::ProjectStore;
use crate::text::{contains, has_substring, lowercase, seq_order, str_equals, unicode_lowercase};
use vstd::prelude::*;

verus! {

/// The pages of the dashboard.
#[derive(Clone, Copy, PartialEq, Eq, Structural, Debug)]
pub enum Nav {
    Home,
    Archived,
    Bin,
    About,
    Feedback,
    PrivacyPolicy,
    Debug,
}

/// The label shown for a stored project type: the type's label when the
/// value names a known type, else the stored value itself.
pub open spec fn framework_label(stored: Seq<char>) -> Seq<char> {
    match type_from_storage(stored) {
        Some(t) => type_label(t),
        None => stored,
    }
}

pub fn map_framework_label(stored: &str) -> (r: String)
    ensures
        r@ == framework_label(stored@),
{
    match ProjectType::from_storage(stored) {
        Some(t) => t.label().to_string(),
        None => stored.to_string(),
    }
}

/// The status of the projects a page lists (no project for the other pages).
pub open spec fn nav_shows(nav: Nav, status: Seq<char>) -> bool {
    match nav {
        Nav::Home => status == "active"@,
        Nav::Archived => status == "archived"@,
        Nav::Bin => status == "deleted"@,
        _ => false,
    }
}

/// The project matches the lower-cased search text `q`: `q` is empty, or
/// occurs in the lower-cased name, path, type label or status.
pub open spec fn search_matches(p: ProjectView, q: Seq<char>) -> bool {
    ||| q.len() == 0
    ||| has_substring(unicode_lowercase(p.name), q)
    ||| has_substring(unicode_lowercase(p.main_path), q)
    ||| has_substring(unicode_lowercase(framework_label(p.project_type)), q)
    ||| has_substring(unicode_lowercase(p.status), q)
}

pub open spec fn listed(nav: Nav, q: Seq<char>) -> spec_fn(ProjectView) -> bool {
    |p: ProjectView| nav_shows(nav, p.status) && search_matches(p, q)
}

/// What the list is ordered by.
pub open spec fn sort_text(p: ProjectView, by: ProjectSortBy) -> Seq<char> {
    match by {
        ProjectSortBy::Title => unicode_lowercase(p.name),
        ProjectSortBy::DateCreated => p.created_on,
        ProjectSortBy::ProjectType => unicode_lowercase(framework_label(p.project_type)),
    }
}

pub open spec fn listing_key(p: ProjectView, by: ProjectSortBy) -> KeyView {
    KeyView { has_primary: true, primary: sort_text(p, by), secondary: Seq::empty() }
}

pub open spec fn listing_keys(s: Seq<ProjectView>, by: ProjectSortBy) -> Seq<KeyView> {
    s.map_values(|p: ProjectView| listing_key(p, by))
}

/// `r` is `s` put in the order of a stable sort by `by`, reversed when
/// `desc` (equal projects keep their order either way).
pub open spec fn is_project_listing(
    r: Seq<ProjectView>,
    s: Seq<ProjectView>,
    by: ProjectSortBy,
    desc: bool,
) -> bool {
    exists|order: Seq<usize>|
        {
            &&& is_permutation(order, s.len())
            &&& is_sorted_by_keys(order, listing_keys(s, by), desc)
            &&& is_stable_by_keys(order, listing_keys(s, by), desc)
            &&& r.len() == s.len()
            &&& forall|j: int| 0 <= j < r.len() ==> #[trigger] r[j] == s[order[j] as int]
        }
}

fn is_listed_exec(p: &ProjectRecord, nav: Nav, q: &str) -> (r: bool)
    ensures
        r == listed(nav, q@)(p@),
{
    let nav_match = match nav {
        Nav::Home => str_equals(p.status.as_str(), "active"),
        Nav::Archived => str_equals(p.status.as_str(), "archived"),
        Nav::Bin => str_equals(p.status.as_str(), "deleted"),
        _ => false,
    };
    let framework = lowercase(map_framework_label(p.project_type.as_str()).as_str());
    let search_match = q.unicode_len() == 0 || contains(lowercase(p.name.as_str()).as_str(), q)
        || contains(lowercase(p.main_path.as_str()).as_str(), q) || contains(
        framework.as_str(),
        q,
    ) || contains(lowercase(p.status.as_str()).as_str(), q);
    nav_match && search_match
}

fn key_for_project(p: &ProjectRecord, by: ProjectSortBy) -> (k: SortKey)
    ensures
        k@ == listing_key(p@, by),
{
    let primary = match by {
        ProjectSortBy::Title => lowercase(p.name.as_str()),
        ProjectSortBy::DateCreated => p.created_on.clone(),
        ProjectSortBy::ProjectType => lowercase(map_framework_label(p.project_type.as_str()).as_str()),
    };
    SortKey { has_primary: true, primary, secondary: String::new() }
}

/// The projects the page `nav` lists for the search text, in the chosen
/// order.
pub fn filtered_projects(
    store: &ProjectStore,
    nav: Nav,
    search_text: &str,
    by: ProjectSortBy,
    order: ProjectSortOrder,
) -> (r: Vec<ProjectRecord>)
    ensures
        is_project_listing(
            projects_view(r@),
            store@.filter(listed(nav, unicode_lowercase(search_text@))),
            by,
            order == ProjectSortOrder::Desc,
        ),
{
    let query = lowercase(search_text);
    let ghost q = query@;
    let ghost all = store@;
    let mut picked: Vec<usize> = Vec::new();
    let mut keys: Vec<SortKey> = Vec::new();
    let mut i: usize = 0;
    while i < store.projects.len()
        invariant
            i <= store.projects.len(),
            all == store@,
            q == query@,
            picked@.len() == keys@.len(),
            picked@.len() == all.subrange(0, i as int).filter(listed(nav, q)).len(),
            forall|j: int|
                0 <= j < picked@.len() ==> #[trigger] picked@[j] < store.projects@.len()
                    && all[picked@[j] as int] == all.subrange(0, i as int).filter(listed(nav, q))[j],
            forall|j: int|
                0 <= j < keys@.len() ==> #[trigger] keys@[j]@ == listing_key(
                    all.subrange(0, i as int).filter(listed(nav, q))[j],
                    by,
                ),
        decreases store.projects.len() - i,
    {
        let ghost pre = all.subrange(0, i as int);
        proof {
            assert(all.subrange(0, i + 1) =~= pre.push(all[i as int]));
            pre.lemma_filter_push(all[i as int], listed(nav, q));
            assert(all[i as int] == store.projects@[i as int]@);
        }
        if is_listed_exec(&store.projects[i], nav, query.as_str()) {
            picked.push(i);
            keys.push(key_for_project(&store.projects[i], by));
            proof {
                let post = all.subrange(0, i + 1).filter(listed(nav, q));
                assert(post == pre.filter(listed(nav, q)).push(all[i as int]));
                assert forall|j: int| 0 <= j < picked@.len() implies #[trigger] picked@[j] < store.projects@.len()
                    && all[picked@[j] as int] == post[j] by {
                    if j < picked@.len() - 1 {
                        assert(post[j] == pre.filter(listed(nav, q))[j]);
                    }
                }
                assert forall|j: int| 0 <= j < keys@.len() implies #[trigger] keys@[j]@ == listing_key(post[j], by) by {
                    if j < keys@.len() - 1 {
                        assert(post[j] == pre.filter(listed(nav, q))[j]);
                    }
                }
            }
        }
        i = i + 1;
    }
    proof {
        assert(all.subrange(0, all.len() as int) =~= all);
    }
    let ghost f = all.filter(listed(nav, q));
    let desc = match order {
        ProjectSortOrder::Desc => true,
        ProjectSortOrder::Asc => false,
    };
    let sorted = stable_sort_order(&keys, desc);
    let mut r: Vec<ProjectRecord> = Vec::new();
    let mut j: usize = 0;
    while j < sorted.len()
        invariant
            j <= sorted.len(),
            sorted@.len() == picked@.len(),
            f.len() == picked@.len(),
            all == store@,
            forall|a: int| 0 <= a < sorted@.len() ==> #[trigger] sorted@[a] < picked@.len(),
            forall|a: int|
                0 <= a < picked@.len() ==> #[trigger] picked@[a] < store.projects@.len()
                    && all[picked@[a] as int] == f[a],
            r@.len() == j,
            forall|a: int| 0 <= a < j ==> #[trigger] r@[a]@ == f[sorted@[a] as int],
        decreases sorted.len() - j,
    {
        let idx = picked[sorted[j]];
        assert(all[idx as int] == store.projects@[idx as int]@);
        let p = store.projects[idx].duplicate();
        r.push(p);
        j = j + 1;
    }
    proof {
        assert(keys_view(keys@) =~= listing_keys(f, by));
        assert forall|a: int| 0 <= a < r@.len() implies #[trigger] projects_view(r@)[a] == f[sorted@[a] as int] by {
            assert(r@[a]@ == f[sorted@[a] as int]);
        }
        assert(is_project_listing(projects_view(r@), f, by, desc));
    }
    r
}

/// A page lists only projects with the page's status that match the search
/// text.
pub proof fn listed_projects_belong(
    store: Seq<ProjectView>,
    nav: Nav,
    q: Seq<char>,
    r: Seq<ProjectView>,
    by: ProjectSortBy,
    desc: bool,
)
    requires
        is_project_listing(r, store.filter(listed(nav, q)), by, desc),
    ensures
        forall|j: int| 0 <= j < r.len() ==> nav_shows(nav, (#[trigger] r[j]).status) && search_matches(r[j], q),
{
    let f = store.filter(listed(nav, q));
    let order = choose|order: Seq<usize>|
        {
            &&& is_permutation(order, f.len())
            &&& is_sorted_by_keys(order, listing_keys(f, by), desc)
            &&& is_stable_by_keys(order, listing_keys(f, by), desc)
            &&& r.len() == f.len()
            &&& forall|j: int| 0 <= j < r.len() ==> #[trigger] r[j] == f[order[j] as int]
        };
    assert forall|j: int| 0 <= j < r.len() implies nav_shows(nav, (#[trigger] r[j]).status) && search_matches(r[j], q) by {
        assert(r[j] == f[order[j] as int]);
        store.lemma_filter_pred(listed(nav, q), order[j] as int);
    }
}

/// Pages other than the three project lists list nothing.
pub proof fn other_pages_list_nothing(store: Seq<ProjectView>, nav: Nav, q: Seq<char>)
    requires
        !(nav == Nav::Home || nav == Nav::Archived || nav == Nav::Bin),
    ensures
        store.filter(listed(nav, q)).len() == 0,
{
    let f = store.filter(listed(nav, q));
    if f.len() > 0 {
        store.lemma_filter_pred(listed(nav, q), 0);
    }
}

/// Searching finds a project of the page: a project whose status is the
/// page's (`active` on the projects page, `archived` on the archive page,
/// `deleted` on the bin page) is in the list when the lower-cased search
/// text is empty or occurs in its lower-cased name, path or status.
pub proof fn search_finds_project(
    store: Seq<ProjectView>,
    nav: Nav,
    search: Seq<char>,
    r: Seq<ProjectView>,
    by: ProjectSortBy,
    desc: bool,
    i: int,
)
    requires
        is_project_listing(r, store.filter(listed(nav, unicode_lowercase(search))), by, desc),
        0 <= i < store.len(),
        (nav == Nav::Home && store[i].status == "active"@) || (nav == Nav::Archived
            && store[i].status == "archived"@) || (nav == Nav::Bin && store[i].status
            == "deleted"@),
        unicode_lowercase(search).len() == 0 || has_substring(
            unicode_lowercase(store[i].name),
            unicode_lowercase(search),
        ) || has_substring(unicode_lowercase(store[i].main_path), unicode_lowercase(search))
            || has_substring(unicode_lowercase(store[i].status), unicode_lowercase(search)),
    ensures
        r.contains(store[i]),
{
    let q = unicode_lowercase(search);
    let f = store.filter(listed(nav, q));
    assert(listed(nav, q)(store[i]));
    store.lemma_filter_contains(listed(nav, q), i);
    assert(f.contains(store[i]));
    let k = choose|k: int| 0 <= k < f.len() && f[k] == store[i];
    let order = choose|order: Seq<usize>|
        {
            &&& is_permutation(order, f.len())
            &&& is_sorted_by_keys(order, listing_keys(f, by), desc)
            &&& is_stable_by_keys(order, listing_keys(f, by), desc)
            &&& r.len() == f.len()
            &&& forall|j: int| 0 <= j < r.len() ==> #[trigger] r[j] == f[order[j] as int]
        };
    crate::sorting::lemma_permutation_onto(order, f.len(), k);
    let a = choose|a: int| 0 <= a < order.len() && order[a] as int == k;
    assert(f.contains(store[i]));
    assert(0 <= k < f.len());
    assert(0 <= a < r.len());
    assert(r[a] == f[order[a] as int]);
    assert(r[a] == store[i]);
}

/// The text a listed project is ordered by: its lower-cased name, its
/// creation date, or its lower-cased type label.
pub open spec fn order_text(p: ProjectView, by: ProjectSortBy) -> Seq<char> {
    match by {
        ProjectSortBy::Title => unicode_lowercase(p.name),
        ProjectSortBy::DateCreated => p.created_on,
        ProjectSortBy::ProjectType => unicode_lowercase(framework_label(p.project_type)),
    }
}

/// The list is in order: for any two listed projects, the earlier one's
/// text (lower-cased title, creation date or lower-cased type label) is not
/// after the later one's, or not before it when the order is descending.
pub proof fn listing_is_ordered(
    store: Seq<ProjectView>,
    nav: Nav,
    q: Seq<char>,
    r: Seq<ProjectView>,
    by: ProjectSortBy,
    desc: bool,
)
    requires
        is_project_listing(r, store.filter(listed(nav, q)), by, desc),
    ensures
        forall|a: int, b: int|
            0 <= a < b < r.len() ==> if desc {
                seq_order(order_text(#[trigger] r[a], by), order_text(#[trigger] r[b], by)) >= 0
            } else {
                seq_order(order_text(r[a], by), order_text(r[b], by)) <= 0
            },
{
    let f = store.filter(listed(nav, q));
    let order = choose|order: Seq<usize>|
        {
            &&& is_permutation(order, f.len())
            &&& is_sorted_by_keys(order, listing_keys(f, by), desc)
            &&& is_stable_by_keys(order, listing_keys(f, by), desc)
            &&& r.len() == f.len()
            &&& forall|j: int| 0 <= j < r.len() ==> #[trigger] r[j] == f[order[j] as int]
        };
    let ks = listing_keys(f, by);
    assert forall|a: int, b: int| 0 <= a < b < r.len() implies if desc {
        seq_order(order_text(#[trigger] r[a], by), order_text(#[trigger] r[b], by)) >= 0
    } else {
        seq_order(order_text(r[a], by), order_text(r[b], by)) <= 0
    } by {
        let ka = ks[order[a] as int];
        let kb = ks[order[b] as int];
        assert(r[a] == f[order[a] as int]);
        assert(r[b] == f[order[b] as int]);
        assert(crate::sorting::key_order(ka, kb, desc) <= 0);
        assert(ka == listing_key(r[a], by));
        assert(kb == listing_key(r[b], by));
        crate::text::lemma_order_antisym(Seq::<char>::empty(), Seq::<char>::empty());
        assert(ka.primary == order_text(r[a], by));
        assert(kb.primary == order_text(r[b], by));
    }
}

/// Every listed project belongs on the page and matches the search: its
/// status is `active` on the projects page, `archived` on the archive page
/// and `deleted` on the bin page, and the lower-cased search text is empty
/// or occurs in its lower-cased name, path, type label or status.
pub proof fn listed_projects_match(
    store: Seq<ProjectView>,
    nav: Nav,
    search: Seq<char>,
    r: Seq<ProjectView>,
    by: ProjectSortBy,
    desc: bool,
)
    requires
        is_project_listing(r, store.filter(listed(nav, unicode_lowercase(search))), by, desc),
    ensures
        forall|j: int|
            0 <= j < r.len() ==> {
                let p = #[trigger] r[j];
                let q = unicode_lowercase(search);
                &&& store.contains(p)
                &&& (nav == Nav::Home && p.status == "active"@) || (nav == Nav::Archived
                    && p.status == "archived"@) || (nav == Nav::Bin && p.status == "deleted"@)
                &&& q.len() == 0 || has_substring(unicode_lowercase(p.name), q) || has_substring(
                    unicode_lowercase(p.main_path),
                    q,
                ) || has_substring(unicode_lowercase(framework_label(p.project_type)), q)
                    || has_substring(unicode_lowercase(p.status), q)
            },
{
    let q = unicode_lowercase(search);
    let f = store.filter(listed(nav, q));
    let order = choose|order: Seq<usize>|
        {
            &&& is_permutation(order, f.len())
            &&& is_sorted_by_keys(order, listing_keys(f, by), desc)
            &&& is_stable_by_keys(order, listing_keys(f, by), desc)
            &&& r.len() == f.len()
            &&& forall|j: int| 0 <= j < r.len() ==> #[trigger] r[j] == f[order[j] as int]
        };
    assert forall|j: int| 0 <= j < r.len() implies {
        let p = #[trigger] r[j];
        let q = unicode_lowercase(search);
        &&& store.contains(p)
        &&& (nav == Nav::Home && p.status == "active"@) || (nav == Nav::Archived && p.status
            == "archived"@) || (nav == Nav::Bin && p.status == "deleted"@)
        &&& q.len() == 0 || has_substring(unicode_lowercase(p.name), q) || has_substring(
            unicode_lowercase(p.main_path),
            q,
        ) || has_substring(unicode_lowercase(framework_label(p.project_type)), q)
            || has_substring(unicode_lowercase(p.status), q)
    } by {
        let k = order[j] as int;
        assert(r[j] == f[k]);
        store.lemma_filter_pred(listed(nav, q), k);
        assert(f.contains(f[k]));
        store.lemma_filter_contains_rev(listed(nav, q), f[k]);
    }
}

} // verus!
