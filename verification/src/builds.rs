//! The builds of a project: which files found under the build output folder
//! are builds and in what order they are listed, how a new scan is merged with
//! the recorded builds, starring a build, and the artifact types offered.
use crate::models::{
    builds_view, opt_view, type_from_storage, BuildEntry, BuildEntryView, ProjectType,
    ProjectView,
};
use crate::sorting::{
    is_permutation, is_sorted_by_keys, is_stable_by_keys, keys_view, stable_sort_order, KeyView,
    SortKey,
};
use crate::store::{first_named, has_named, index_named, lemma_index_named, ProjectStore};
use crate::text::{
    ascii_lower_seq, last_segment, name_ext, portable_path, seq_order, str_equals, to_ascii_lower,
    trim, trim_seq,
};
use vstd::prelude::*;

verus! {

/// Calls `Path::extension` on a path given as text and returns the
/// extension as text. The documentation makes the extension the part of the
/// file name after its last `.` (none when the name has no `.` but a
/// leading one), so it holds no `.`. For a path that every platform splits
/// the same way (`portable_path`) the file name is the text after the last
/// `/`, and the extension is stated exactly; for other paths which part is
/// the file name depends on the platform and is left unsaid.
#[verifier::external_body]
pub fn extension_of(path: &str) -> (r: Option<String>)
    ensures
        r matches Some(e) ==> !e@.contains('.'),
        portable_path(path@) ==> opt_view(r) == name_ext(last_segment(path@)),
{
    std::path::Path::new(path).extension().and_then(|e| e.to_str()).map(|e| e.to_owned())
}

/// Calls `Path::file_name` on a path given as text and returns the final
/// component as text. For a path that every platform splits the same way
/// (`portable_path`) it is the text after the last `/`; for other paths
/// which part is the final component depends on the platform and is left
/// unsaid.
#[verifier::external_body]
pub fn file_name_of(path: &str) -> (r: Option<String>)
    ensures
        portable_path(path@) ==> opt_view(r) == Some(last_segment(path@)),
{
    std::path::Path::new(path).file_name().and_then(|e| e.to_str()).map(|e| e.to_owned())
}

/// What is known of one file found under the build output folder: its path,
/// its file name and extension as the platform's path syntax reads them, and
/// its creation time as text (`%Y-%m-%d %H:%M`) when known.
pub struct FileFacts {
    pub path: String,
    pub file_name: Option<String>,
    pub extension: Option<String>,
    pub created_on: Option<String>,
}

pub struct FileFactsView {
    pub path: Seq<char>,
    pub file_name: Option<Seq<char>>,
    pub extension: Option<Seq<char>>,
    pub created_on: Option<Seq<char>>,
}

impl View for FileFacts {
    type V = FileFactsView;

    open spec fn view(&self) -> FileFactsView {
        FileFactsView {
            path: self.path@,
            file_name: opt_view(self.file_name),
            extension: opt_view(self.extension),
            created_on: opt_view(self.created_on),
        }
    }
}

/// Reads the file name and extension of a file found while scanning.
pub fn file_facts(path: String, created_on: Option<String>) -> (r: FileFacts)
    ensures
        r.path@ == path@,
        opt_view(r.created_on) == opt_view(created_on),
        portable_path(path@) ==> opt_view(r.file_name) == Some(last_segment(path@)),
        portable_path(path@) ==> opt_view(r.extension) == name_ext(last_segment(path@)),
{
    let file_name = file_name_of(path.as_str());
    let extension = extension_of(path.as_str());
    FileFacts { path, file_name, extension, created_on }
}

pub open spec fn facts_view(v: Seq<FileFacts>) -> Seq<FileFactsView> {
    v.map_values(|f: FileFacts| f@)
}

/// The file is an APK: its extension, ignoring ASCII case, is `apk` (a file
/// without extension counts as having the empty one).
pub open spec fn is_apk(f: FileFactsView) -> bool {
    ascii_lower_seq(
        match f.extension {
            Some(e) => e,
            None => Seq::empty(),
        },
    ) == "apk"@
}

pub open spec fn apk_filter() -> spec_fn(FileFactsView) -> bool {
    |f: FileFactsView| is_apk(f)
}

/// The build recorded for an APK file: named by its file name
/// (`build.apk` when it has none), not starred.
pub open spec fn build_of(f: FileFactsView) -> BuildEntryView {
    BuildEntryView {
        name: match f.file_name {
            Some(n) => n,
            None => "build.apk"@,
        },
        path: f.path,
        created_on: f.created_on,
        starred: false,
    }
}

/// A build's place in the list: newest first (unknown times last), then by
/// name.
pub open spec fn build_key(b: BuildEntryView) -> KeyView {
    KeyView {
        has_primary: b.created_on is Some,
        primary: match b.created_on {
            Some(c) => c,
            None => Seq::empty(),
        },
        secondary: b.name,
    }
}

pub open spec fn to_build() -> spec_fn(FileFactsView) -> BuildEntryView {
    |f: FileFactsView| build_of(f)
}

/// The builds found among `files`, before ordering.
pub open spec fn found_builds(files: Seq<FileFactsView>) -> Seq<BuildEntryView> {
    files.filter(apk_filter()).map_values(to_build())
}

/// `r` is `s` put in the order of a stable sort by `key`.
pub open spec fn is_build_listing(r: Seq<BuildEntryView>, s: Seq<BuildEntryView>) -> bool {
    exists|order: Seq<usize>|
        {
            &&& is_permutation(order, s.len())
            &&& is_sorted_by_keys(order, s.map_values(|b: BuildEntryView| build_key(b)), true)
            &&& is_stable_by_keys(order, s.map_values(|b: BuildEntryView| build_key(b)), true)
            &&& r.len() == s.len()
            &&& forall|j: int| 0 <= j < r.len() ==> #[trigger] r[j] == s[order[j] as int]
        }
}

fn key_for_build(b: &BuildEntry) -> (k: SortKey)
    ensures
        k@ == build_key(b@),
{
    match &b.created_on {
        Some(c) => SortKey { has_primary: true, primary: c.clone(), secondary: b.name.clone() },
        None => SortKey { has_primary: false, primary: String::new(), secondary: b.name.clone() },
    }
}

/// The builds among the files found under the build output folder, newest
/// first, as a stable sort orders them.
pub fn apk_builds_from(files: &Vec<FileFacts>) -> (r: Vec<BuildEntry>)
    ensures
        is_build_listing(builds_view(r@), found_builds(facts_view(files@))),
{
    let ghost fv = facts_view(files@);
    let mut found: Vec<BuildEntry> = Vec::new();
    let mut keys: Vec<SortKey> = Vec::new();
    let mut i: usize = 0;
    while i < files.len()
        invariant
            i <= files.len(),
            fv == facts_view(files@),
            builds_view(found@) == fv.subrange(0, i as int).filter(apk_filter()).map_values(
                to_build(),
            ),
            keys@.len() == found@.len(),
            forall|j: int| 0 <= j < found@.len() ==> #[trigger] keys@[j]@ == build_key(found@[j]@),
        decreases files.len() - i,
    {
        let f = &files[i];
        let ext: String = match &f.extension {
            Some(e) => to_ascii_lower(e.as_str()),
            None => String::new(),
        };
        proof {
            assert(fv.subrange(0, i + 1) =~= fv.subrange(0, i as int).push(fv[i as int]));
            fv.subrange(0, i as int).lemma_filter_push(fv[i as int], apk_filter());
            assert(fv[i as int] == f@);
            assert(ascii_lower_seq(Seq::<char>::empty()) =~= Seq::<char>::empty());
        }
        if str_equals(ext.as_str(), "apk") {
            let name = match &f.file_name {
                Some(n) => n.clone(),
                None => "build.apk".to_string(),
            };
            let created_on = match &f.created_on {
                Some(c) => Some(c.clone()),
                None => None,
            };
            let b = BuildEntry { name, path: f.path.clone(), created_on, starred: false };
            assert(b@ == build_of(f@));
            let k = key_for_build(&b);
            let ghost old_found = found@;
            found.push(b);
            keys.push(k);
            proof {
                let pre = fv.subrange(0, i as int).filter(apk_filter());
                let want = pre.push(f@).map_values(to_build());
                assert(found@ == old_found.push(b));
                assert(builds_view(old_found).len() == old_found.len());
                assert(pre.map_values(to_build()).len() == old_found.len());
                assert forall|a: int| 0 <= a < want.len() implies #[trigger] builds_view(found@)[a] == want[a] by {
                    assert(pre.map_values(to_build()).len() == old_found.len());
                    if a < old_found.len() {
                        assert(builds_view(old_found)[a] == pre.map_values(to_build())[a]);
                        assert(found@[a] == old_found[a]);
                        assert(want[a] == build_of(pre[a]));
                    } else {
                        assert(found@[a] == b);
                        assert(want[a] == build_of(f@));
                    }
                }
                assert(builds_view(found@).len() == want.len());
                assert(builds_view(found@) =~= want);
            }
        }
        i = i + 1;
    }
    proof {
        assert(fv.subrange(0, files@.len() as int) =~= fv);
    }
    let order = stable_sort_order(&keys, true);
    let mut r: Vec<BuildEntry> = Vec::new();
    let mut j: usize = 0;
    while j < order.len()
        invariant
            j <= order.len(),
            order@.len() == found@.len(),
            forall|a: int| 0 <= a < order@.len() ==> #[trigger] order@[a] < found@.len(),
            r@.len() == j,
            forall|a: int| 0 <= a < j ==> #[trigger] r@[a]@ == found@[order@[a] as int]@,
        decreases order.len() - j,
    {
        let b = found[order[j]].duplicate();
        r.push(b);
        j = j + 1;
    }
    proof {
        let s = builds_view(found@);
        assert(keys_view(keys@) =~= s.map_values(|b: BuildEntryView| build_key(b)));
        assert forall|a: int| 0 <= a < r@.len() implies #[trigger] builds_view(r@)[a] == s[order@[a] as int] by {
            assert(r@[a]@ == found@[order@[a] as int]@);
        }
        assert(is_build_listing(builds_view(r@), s));
    }
    r
}

/// An extension as an artifact type: trimmed and ASCII-lower-cased.
pub open spec fn artifact_type(e: Seq<char>) -> Seq<char> {
    ascii_lower_seq(trim_seq(e))
}

/// `x` is the artifact type of one of the extensions (an empty one
/// counts for nothing).
pub open spec fn from_extensions(exts: Seq<Option<Seq<char>>>, x: Seq<char>) -> bool {
    exists|j: int|
        0 <= j < exts.len() && (#[trigger] exts[j]) is Some && artifact_type(exts[j]->0) == x
            && x.len() > 0
}

/// The artifact types offered for a project type when its builds give none.
pub open spec fn fallback_type(project_type: Seq<char>, x: Seq<char>) -> bool {
    match type_from_storage(project_type) {
        Some(ProjectType::Flutter) => x == "apk"@,
        Some(ProjectType::Android) | None => x == "apk"@ || x == "aab"@,
        _ => x == "custom_type"@,
    }
}

/// The artifact types offered: those of the builds' extensions (or, when
/// there are none, the project type's fallback ones), and `custom_type`.
pub open spec fn offered_type(
    project_type: Seq<char>,
    exts: Seq<Option<Seq<char>>>,
    x: Seq<char>,
) -> bool {
    ||| from_extensions(exts, x)
    ||| ((forall|y: Seq<char>| !from_extensions(exts, y)) && fallback_type(project_type, x))
    ||| x == "custom_type"@
}

/// The list holds exactly the offered artifact types.
pub open spec fn offers_exactly(
    list: Seq<Seq<char>>,
    project_type: Seq<char>,
    exts: Seq<Option<Seq<char>>>,
) -> bool {
    forall|x: Seq<char>| list.contains(x) <==> offered_type(project_type, exts, x)
}

/// The texts are in strictly ascending order.
pub open spec fn strictly_ascending(r: Seq<Seq<char>>) -> bool {
    forall|a: int, b: int| 0 <= a < b < r.len() ==> seq_order(r[a], r[b]) < 0
}

pub open spec fn texts_view(v: Seq<String>) -> Seq<Seq<char>> {
    v.map_values(|s: String| s@)
}

pub open spec fn opts_view(v: Seq<Option<String>>) -> Seq<Option<Seq<char>>> {
    v.map_values(|o: Option<String>| opt_view(o))
}

/// Adds `s` to a strictly ascending list of texts unless it is there.
fn insert_ascending(v: &mut Vec<String>, s: String)
    requires
        strictly_ascending(texts_view(old(v)@)),
    ensures
        strictly_ascending(texts_view(final(v)@)),
        forall|x: Seq<char>|
            texts_view(final(v)@).contains(x) <==> (texts_view(old(v)@).contains(x) || x == s@),
{
    let ghost ov = texts_view(v@);
    let mut p: usize = 0;
    while p < v.len() && crate::text::compare_str(v[p].as_str(), s.as_str()) < 0
        invariant
            p <= v@.len(),
            ov == texts_view(v@),
            forall|q: int| 0 <= q < p ==> seq_order(ov[q], s@) < 0,
        decreases v@.len() - p,
    {
        p = p + 1;
    }
    proof {
        assert forall|q: int| p <= q < ov.len() implies seq_order(ov[q], s@) >= 0 by {
            assert(seq_order(ov[p as int], s@) >= 0);
            if q > p {
                crate::text::lemma_order_antisym(ov[q], s@);
                if seq_order(ov[q], s@) < 0 {
                    crate::text::lemma_order_trans(ov[p as int], ov[q], s@);
                }
            }
        }
    }
    if p < v.len() && str_equals(v[p].as_str(), s.as_str()) {
        assert(ov[p as int] == s@);
        return;
    }
    proof {
        if p < ov.len() {
            crate::text::lemma_order_antisym(ov[p as int], s@);
        }
    }
    v.insert(p, s);
    proof {
        let nv = texts_view(v@);
        assert(nv =~= ov.insert(p as int, s@));
        assert forall|a: int, b: int| 0 <= a < b < nv.len() implies seq_order(nv[a], nv[b]) < 0 by {
            if b < p {
            } else if a < p && b == p {
                crate::text::lemma_order_antisym(ov[a], s@);
            } else if a < p && b > p {
                crate::text::lemma_order_antisym(ov[a], s@);
            } else if a == p {
                crate::text::lemma_order_antisym(s@, ov[b - 1]);
                crate::text::lemma_order_antisym(ov[b - 1], s@);
                if b - 1 > p {
                    crate::text::lemma_order_antisym(ov[p as int], s@);
                    crate::text::lemma_order_trans(s@, ov[p as int], ov[b - 1]);
                }
            } else {
            }
        }
        assert forall|x: Seq<char>| nv.contains(x) <==> (ov.contains(x) || x == s@) by {
            if nv.contains(x) {
                let j = choose|j: int| 0 <= j < nv.len() && nv[j] == x;
                if j < p {
                    assert(ov[j] == x);
                } else if j > p {
                    assert(ov[j - 1] == x);
                }
            }
            if ov.contains(x) {
                let j = choose|j: int| 0 <= j < ov.len() && ov[j] == x;
                if j < p {
                    assert(nv[j] == x);
                } else {
                    assert(nv[j + 1] == x);
                }
            }
            if x == s@ {
                assert(nv[p as int] == x);
            }
        }
    }
}

/// The artifact types offered for a project with the given stored type
/// whose builds have the given extensions: in ascending order, each once.
pub fn artifact_type_options(project_type: &str, extensions: &Vec<Option<String>>) -> (r: Vec<
    String,
>)
    ensures
        strictly_ascending(texts_view(r@)),
        forall|x: Seq<char>|
            texts_view(r@).contains(x) <==> offered_type(project_type@, opts_view(extensions@), x),
{
    let ghost ev = opts_view(extensions@);
    let mut r: Vec<String> = Vec::new();
    let mut i: usize = 0;
    while i < extensions.len()
        invariant
            i <= extensions.len(),
            ev == opts_view(extensions@),
            strictly_ascending(texts_view(r@)),
            forall|x: Seq<char>|
                texts_view(r@).contains(x) <==> from_extensions(ev.subrange(0, i as int), x),
        decreases extensions.len() - i,
    {
        let ghost pre = ev.subrange(0, i as int);
        let ghost post = ev.subrange(0, i + 1);
        proof {
            assert forall|x: Seq<char>| from_extensions(pre, x) ==> from_extensions(post, x) by {
                if from_extensions(pre, x) {
                    let j = choose|j: int| 0 <= j < pre.len() && (#[trigger] pre[j]) is Some && artifact_type(pre[j]->0) == x && x.len() > 0;
                    assert(post[j] == pre[j]);
                }
            }
        }
        match &extensions[i] {
            Some(e) => {
                let t = trim(e.as_str());
                let low = to_ascii_lower(t.as_str());
                assert(ev[i as int] == Some(e@));
                if low.as_str().unicode_len() > 0 {
                    let ghost lv = low@;
                    insert_ascending(&mut r, low);
                    proof {
                        assert forall|x: Seq<char>| texts_view(r@).contains(x) <==> from_extensions(post, x) by {
                            if from_extensions(post, x) {
                                let j = choose|j: int| 0 <= j < post.len() && (#[trigger] post[j]) is Some && artifact_type(post[j]->0) == x && x.len() > 0;
                                if j < i {
                                    assert(pre[j] == post[j]);
                                    assert(from_extensions(pre, x));
                                }
                            }
                            if x == lv {
                                assert(post[i as int] == Some(e@));
                                assert(from_extensions(post, x));
                            }
                        }
                    }
                } else {
                    proof {
                        assert forall|x: Seq<char>| from_extensions(post, x) ==> from_extensions(pre, x) by {
                            if from_extensions(post, x) {
                                let j = choose|j: int| 0 <= j < post.len() && (#[trigger] post[j]) is Some && artifact_type(post[j]->0) == x && x.len() > 0;
                                if j < i {
                                    assert(pre[j] == post[j]);
                                }
                            }
                        }
                    }
                }
            },
            None => {
                proof {
                    assert forall|x: Seq<char>| from_extensions(post, x) ==> from_extensions(pre, x) by {
                        if from_extensions(post, x) {
                            let j = choose|j: int| 0 <= j < post.len() && (#[trigger] post[j]) is Some && artifact_type(post[j]->0) == x && x.len() > 0;
                            if j < i {
                                assert(pre[j] == post[j]);
                            }
                        }
                    }
                }
            },
        }
        i = i + 1;
    }
    proof {
        assert(ev.subrange(0, ev.len() as int) =~= ev);
    }
    if r.len() == 0 {
        proof {
            assert forall|y: Seq<char>| !from_extensions(ev, y) by {
                if from_extensions(ev, y) {
                    assert(texts_view(r@).contains(y));
                }
            }
        }
        let t = match ProjectType::from_storage(project_type) {
            Some(t) => t,
            None => ProjectType::Android,
        };
        match t {
            ProjectType::Android => {
                insert_ascending(&mut r, "apk".to_string());
                insert_ascending(&mut r, "aab".to_string());
            },
            ProjectType::Flutter => {
                insert_ascending(&mut r, "apk".to_string());
            },
            _ => {
                insert_ascending(&mut r, "custom_type".to_string());
            },
        }
    } else {
        proof {
            assert(texts_view(r@).contains(texts_view(r@)[0]));
        }
    }
    insert_ascending(&mut r, "custom_type".to_string());
    r
}

/// The artifact types offered for a project: read from the extensions of
/// its builds' paths, as `artifact_type_options` states.
pub fn project_artifact_type_options(project: &crate::models::ProjectRecord) -> (r: Vec<String>)
    ensures
        strictly_ascending(texts_view(r@)),
        texts_view(r@).contains("custom_type"@),
        exists|exts: Seq<Option<Seq<char>>>|
            {
                &&& exts.len() == project.builds@.len()
                &&& forall|i: int|
                    0 <= i < exts.len() && portable_path(#[trigger] project.builds@[i].path@)
                        ==> exts[i] == name_ext(last_segment(project.builds@[i].path@))
                &&& #[trigger] offers_exactly(texts_view(r@), project.project_type@, exts)
            },
{
    let mut exts: Vec<Option<String>> = Vec::new();
    let mut i: usize = 0;
    while i < project.builds.len()
        invariant
            i <= project.builds.len(),
            exts@.len() == i,
            forall|j: int|
                0 <= j < i && portable_path(#[trigger] project.builds@[j].path@)
                    ==> opt_view(exts@[j]) == name_ext(last_segment(project.builds@[j].path@)),
        decreases project.builds.len() - i,
    {
        exts.push(extension_of(project.builds[i].path.as_str()));
        i = i + 1;
    }
    let r = artifact_type_options(project.project_type.as_str(), &exts);
    proof {
        reveal_strlit("custom_type");
        assert(offered_type(project.project_type@, opts_view(exts@), "custom_type"@));
        assert(opts_view(exts@).len() == project.builds@.len());
        assert(offers_exactly(texts_view(r@), project.project_type@, opts_view(exts@)));
        assert forall|i: int|
            0 <= i < opts_view(exts@).len() && portable_path(#[trigger] project.builds@[i].path@)
                implies opts_view(exts@)[i] == name_ext(last_segment(project.builds@[i].path@)) by {}
    }
    r
}

/// Index `k` holds the first build with path `path`.
pub open spec fn first_with_path(bs: Seq<BuildEntryView>, path: Seq<char>, k: int) -> bool {
    &&& 0 <= k < bs.len()
    &&& bs[k].path == path
    &&& forall|j: int| 0 <= j < k ==> bs[j].path != path
}

pub open spec fn has_path(bs: Seq<BuildEntryView>, path: Seq<char>) -> bool {
    exists|k: int| 0 <= k < bs.len() && bs[k].path == path
}

pub open spec fn index_with_path(bs: Seq<BuildEntryView>, path: Seq<char>) -> int {
    choose|k: int| first_with_path(bs, path, k)
}

proof fn lemma_first_path_exists(bs: Seq<BuildEntryView>, path: Seq<char>, w: int)
    requires
        0 <= w < bs.len(),
        bs[w].path == path,
    ensures
        exists|k: int| first_with_path(bs, path, k),
    decreases w,
{
    if forall|j: int| 0 <= j < w ==> bs[j].path != path {
        assert(first_with_path(bs, path, w));
    } else {
        let v = choose|j: int| 0 <= j < w && bs[j].path == path;
        lemma_first_path_exists(bs, path, v);
    }
}

proof fn lemma_index_with_path(bs: Seq<BuildEntryView>, path: Seq<char>, k: int)
    requires
        first_with_path(bs, path, k),
    ensures
        index_with_path(bs, path) == k,
{
    lemma_first_path_exists(bs, path, k);
    let c = index_with_path(bs, path);
    if c < k {
        assert(bs[c].path == path);
    } else if k < c {
        assert(bs[k].path == path);
    }
}

fn find_build(bs: &Vec<BuildEntry>, path: &str) -> (r: Option<usize>)
    ensures
        match r {
            Some(k) => first_with_path(builds_view(bs@), path@, k as int),
            None => !has_path(builds_view(bs@), path@),
        },
{
    let mut i: usize = 0;
    while i < bs.len()
        invariant
            i <= bs.len(),
            forall|j: int| 0 <= j < i ==> builds_view(bs@)[j].path != path@,
        decreases bs.len() - i,
    {
        if str_equals(bs[i].path.as_str(), path) {
            return Some(i);
        }
        i = i + 1;
    }
    None
}

/// The builds with no star.
pub open spec fn unstarred(bs: Seq<BuildEntryView>) -> Seq<BuildEntryView> {
    bs.map_values(|b: BuildEntryView| BuildEntryView { starred: false, ..b })
}

/// The build at `k` starred.
pub open spec fn star_at(bs: Seq<BuildEntryView>, k: int) -> Seq<BuildEntryView> {
    bs.update(k, BuildEntryView { starred: true, ..bs[k] })
}

/// The project after its build at `path` is starred or unstarred: every
/// star is cleared, then, if that build was not starred, it is starred and
/// recorded as the project's star; if it was, the project has no star.
pub open spec fn toggled_project(p: ProjectView, path: Seq<char>) -> ProjectView {
    let found = has_path(p.builds, path);
    let k = index_with_path(p.builds, path);
    let was = found && p.builds[k].starred;
    let cleared = unstarred(p.builds);
    if was {
        ProjectView { builds: cleared, star: None, ..p }
    } else if found {
        ProjectView { builds: star_at(cleared, k), star: Some(path), ..p }
    } else {
        ProjectView { builds: cleared, ..p }
    }
}

fn unstarred_copy(bs: &Vec<BuildEntry>) -> (r: Vec<BuildEntry>)
    ensures
        builds_view(r@) == unstarred(builds_view(bs@)),
{
    let mut r: Vec<BuildEntry> = Vec::new();
    let mut i: usize = 0;
    while i < bs.len()
        invariant
            i <= bs.len(),
            r@.len() == i,
            forall|j: int| 0 <= j < i ==> #[trigger] r@[j]@ == (BuildEntryView { starred: false, ..bs@[j]@ }),
        decreases bs.len() - i,
    {
        let mut b = bs[i].duplicate();
        b.starred = false;
        r.push(b);
        i = i + 1;
    }
    assert(builds_view(r@) =~= unstarred(builds_view(bs@)));
    r
}

/// At most one build is starred.
pub open spec fn at_most_one_starred(bs: Seq<BuildEntryView>) -> bool {
    forall|a: int, b: int| 0 <= a < b < bs.len() ==> !(bs[a].starred && bs[b].starred)
}

/// After a build is starred or unstarred, at most one build of the project
/// is starred.
pub proof fn toggle_leaves_one_star(p: ProjectView, path: Seq<char>)
    ensures
        at_most_one_starred(toggled_project(p, path).builds),
{
    let c = unstarred(p.builds);
    assert forall|a: int| 0 <= a < c.len() implies !(#[trigger] c[a]).starred by {}
    let t = toggled_project(p, path).builds;
    let found = has_path(p.builds, path);
    let k = index_with_path(p.builds, path);
    if found {
        let w = choose|q: int| 0 <= q < p.builds.len() && p.builds[q].path == path;
        lemma_first_path_exists(p.builds, path, w);
    }
    if found && !p.builds[k].starred {
        assert(t == star_at(c, k));
        assert(c.len() == p.builds.len());
        assert(t.len() == c.len());
        assert forall|a: int, b: int| 0 <= a < b < t.len() implies !(t[a].starred && t[b].starred) by {
            if a != k {
                assert(t[a] == c[a]);
            } else {
                assert(t[b] == c[b]);
            }
        }
    } else {
        assert(t == c);
    }
}

/// The build whose path was recorded as starred: the project's star, or
/// else the path of its first starred build.
pub open spec fn starred_path_of(p: ProjectView) -> Option<Seq<char>> {
    if p.star is Some {
        p.star
    } else if exists|k: int| 0 <= k < p.builds.len() && p.builds[k].starred {
        Some(p.builds[choose|k: int| first_starred(p.builds, k)].path)
    } else {
        None
    }
}

pub open spec fn first_starred(bs: Seq<BuildEntryView>, k: int) -> bool {
    &&& 0 <= k < bs.len()
    &&& bs[k].starred
    &&& forall|j: int| 0 <= j < k ==> !bs[j].starred
}

/// Toggling the star of a build that is not starred, twice in a row,
/// leaves the project with no starred build and no star.
pub proof fn toggle_twice_clears_star(p: ProjectView, path: Seq<char>)
    requires
        has_path(p.builds, path),
        !p.builds[index_with_path(p.builds, path)].starred,
    ensures
        forall|a: int|
            0 <= a < toggled_project(toggled_project(p, path), path).builds.len() ==> !(
            #[trigger] toggled_project(toggled_project(p, path), path).builds[a]).starred,
        toggled_project(toggled_project(p, path), path).star is None,
{
    let w = choose|q: int| 0 <= q < p.builds.len() && p.builds[q].path == path;
    lemma_first_path_exists(p.builds, path, w);
    let k = index_with_path(p.builds, path);
    let once = toggled_project(p, path);
    assert(once.builds == star_at(unstarred(p.builds), k));
    assert(first_with_path(once.builds, path, k)) by {
        assert forall|j: int| 0 <= j < k implies once.builds[j].path != path by {
            assert(once.builds[j].path == p.builds[j].path);
        }
    }
    lemma_index_with_path(once.builds, path, k);
    assert(once.builds[k].starred);
    let twice = toggled_project(once, path);
    assert(twice.builds == unstarred(once.builds));
}

/// Only APK files are builds, and every APK file is one: each build listed
/// from a scan has the path and time of a scanned file whose extension,
/// ignoring ASCII case, is `apk`, and is not starred; each scanned file with
/// such an extension gives a listed build.
pub proof fn scanned_builds_are_apks(files: Seq<FileFactsView>, r: Seq<BuildEntryView>)
    requires
        is_build_listing(r, found_builds(files)),
    ensures
        forall|j: int|
            0 <= j < r.len() ==> exists|i: int|
                0 <= i < files.len() && (#[trigger] r[j]).path == files[i].path && r[j].created_on
                    == files[i].created_on && !r[j].starred && (match files[i].extension {
                    Some(e) => ascii_lower_seq(e) == "apk"@,
                    None => false,
                }),
        forall|i: int|
            0 <= i < files.len() && (match (#[trigger] files[i]).extension {
                Some(e) => ascii_lower_seq(e) == "apk"@,
                None => false,
            }) ==> exists|j: int| 0 <= j < r.len() && r[j].path == files[i].path,
{
    reveal_strlit("apk");
    let f = files.filter(apk_filter());
    let s = found_builds(files);
    assert(s == f.map_values(to_build()));
    let order = choose|order: Seq<usize>|
        {
            &&& is_permutation(order, s.len())
            &&& is_sorted_by_keys(order, s.map_values(|b: BuildEntryView| build_key(b)), true)
            &&& is_stable_by_keys(order, s.map_values(|b: BuildEntryView| build_key(b)), true)
            &&& r.len() == s.len()
            &&& forall|j: int| 0 <= j < r.len() ==> #[trigger] r[j] == s[order[j] as int]
        };
    assert forall|j: int| 0 <= j < r.len() implies exists|i: int|
        0 <= i < files.len() && (#[trigger] r[j]).path == files[i].path && r[j].created_on
            == files[i].created_on && !r[j].starred && (match files[i].extension {
            Some(e) => ascii_lower_seq(e) == "apk"@,
            None => false,
        }) by {
        let k = order[j] as int;
        assert(r[j] == s[k]);
        assert(s[k] == build_of(f[k]));
        files.lemma_filter_pred(apk_filter(), k);
        assert(f.contains(f[k]));
        files.lemma_filter_contains_rev(apk_filter(), f[k]);
        let i = choose|i: int| 0 <= i < files.len() && files[i] == f[k];
        assert(is_apk(files[i]));
        if files[i].extension is None {
            assert(ascii_lower_seq(Seq::<char>::empty()).len() == 0);
        }
    }
    assert forall|i: int|
        0 <= i < files.len() && (match (#[trigger] files[i]).extension {
            Some(e) => ascii_lower_seq(e) == "apk"@,
            None => false,
        }) implies exists|j: int| 0 <= j < r.len() && r[j].path == files[i].path by {
        assert(is_apk(files[i]));
        files.lemma_filter_contains(apk_filter(), i);
        let k = choose|k: int| 0 <= k < f.len() && f[k] == files[i];
        crate::sorting::lemma_permutation_onto(order, s.len(), k);
        let a = choose|a: int| 0 <= a < order.len() && order[a] as int == k;
        assert(r[a] == s[k]);
        assert(s[k] == build_of(f[k]));
    }
}

/// Builds are listed newest first: a build with a time comes before one
/// without; of two with times, the earlier-listed one's time is not before
/// the other's, and with equal times its name is not after the other's; of
/// two without times, the names are in order.
pub proof fn scanned_builds_newest_first(files: Seq<FileFactsView>, r: Seq<BuildEntryView>)
    requires
        is_build_listing(r, found_builds(files)),
    ensures
        forall|a: int, b: int|
            0 <= a < b < r.len() ==> match ((#[trigger] r[a]).created_on, (#[trigger] r[b]).created_on) {
                (Some(x), Some(y)) => seq_order(x, y) > 0 || (x == y && seq_order(r[a].name, r[b].name)
                    <= 0),
                (Some(_), None) => true,
                (None, Some(_)) => false,
                (None, None) => seq_order(r[a].name, r[b].name) <= 0,
            },
{
    let s = found_builds(files);
    let ks = s.map_values(|b: BuildEntryView| build_key(b));
    let order = choose|order: Seq<usize>|
        {
            &&& is_permutation(order, s.len())
            &&& is_sorted_by_keys(order, s.map_values(|b: BuildEntryView| build_key(b)), true)
            &&& is_stable_by_keys(order, s.map_values(|b: BuildEntryView| build_key(b)), true)
            &&& r.len() == s.len()
            &&& forall|j: int| 0 <= j < r.len() ==> #[trigger] r[j] == s[order[j] as int]
        };
    assert forall|a: int, b: int| 0 <= a < b < r.len() implies match (
        (#[trigger] r[a]).created_on,
        (#[trigger] r[b]).created_on,
    ) {
        (Some(x), Some(y)) => seq_order(x, y) > 0 || (x == y && seq_order(r[a].name, r[b].name)
            <= 0),
        (Some(_), None) => true,
        (None, Some(_)) => false,
        (None, None) => seq_order(r[a].name, r[b].name) <= 0,
    } by {
        assert(r[a] == s[order[a] as int]);
        assert(r[b] == s[order[b] as int]);
        assert(crate::sorting::key_order(ks[order[a] as int], ks[order[b] as int], true) <= 0);
        assert(ks[order[a] as int] == build_key(r[a]));
        assert(ks[order[b] as int] == build_key(r[b]));
        match (r[a].created_on, r[b].created_on) {
            (Some(x), Some(y)) => {
                crate::text::lemma_order_antisym(x, y);
            },
            _ => {},
        }
    }
}

/// The artifact types offered include `custom_type` and the trimmed,
/// lower-cased, non-empty extension of every build; when no build gives
/// one, a Flutter project is offered `apk` (and not `aab`), an Android
/// project or one of unknown type `apk` and `aab`, and any other project
/// nothing but `custom_type`.
pub proof fn offered_artifact_types(
    list: Seq<Seq<char>>,
    project_type: Seq<char>,
    exts: Seq<Option<Seq<char>>>,
)
    requires
        offers_exactly(list, project_type, exts),
    ensures
        list.contains("custom_type"@),
        forall|j: int|
            0 <= j < exts.len() && (#[trigger] exts[j]) is Some && ascii_lower_seq(
                trim_seq(exts[j]->0),
            ).len() > 0 ==> list.contains(ascii_lower_seq(trim_seq(exts[j]->0))),
        (forall|j: int|
            0 <= j < exts.len() ==> (#[trigger] exts[j]) is None || ascii_lower_seq(
                trim_seq(exts[j]->0),
            ).len() == 0) ==> match type_from_storage(project_type) {
            Some(ProjectType::Flutter) => list.contains("apk"@) && !list.contains("aab"@),
            Some(ProjectType::Android) | None => list.contains("apk"@) && list.contains("aab"@),
            _ => forall|x: Seq<char>| list.contains(x) ==> x == "custom_type"@,
        },
{
    reveal_strlit("apk");
    reveal_strlit("aab");
    reveal_strlit("custom_type");
    assert(offered_type(project_type, exts, "custom_type"@));
    assert forall|j: int|
        0 <= j < exts.len() && (#[trigger] exts[j]) is Some && ascii_lower_seq(
            trim_seq(exts[j]->0),
        ).len() > 0 implies list.contains(ascii_lower_seq(trim_seq(exts[j]->0))) by {
        assert(from_extensions(exts, ascii_lower_seq(trim_seq(exts[j]->0))));
    }
    if forall|j: int|
        0 <= j < exts.len() ==> (#[trigger] exts[j]) is None || ascii_lower_seq(
            trim_seq(exts[j]->0),
        ).len() == 0 {
        assert forall|y: Seq<char>| !from_extensions(exts, y) by {
            if from_extensions(exts, y) {
                let j = choose|j: int|
                    0 <= j < exts.len() && (#[trigger] exts[j]) is Some && artifact_type(exts[j]->0)
                        == y && y.len() > 0;
            }
        }
        assert(offered_type(project_type, exts, "apk"@) == fallback_type(project_type, "apk"@));
        assert("aab"@ != "custom_type"@) by { assert("aab"@.len() != "custom_type"@.len()); }
        assert("aab"@ != "apk"@) by { assert("aab"@[1] != "apk"@[1]); }
        assert(offered_type(project_type, exts, "aab"@) == fallback_type(project_type, "aab"@));
    }
}

proof fn lemma_first_starred_exists(bs: Seq<BuildEntryView>, w: int)
    requires
        0 <= w < bs.len(),
        bs[w].starred,
    ensures
        exists|k: int| first_starred(bs, k),
    decreases w,
{
    if forall|j: int| 0 <= j < w ==> !bs[j].starred {
        assert(first_starred(bs, w));
    } else {
        let v = choose|j: int| 0 <= j < w && bs[j].starred;
        lemma_first_starred_exists(bs, v);
    }
}

proof fn lemma_first_starred_unique(bs: Seq<BuildEntryView>, k: int)
    requires
        first_starred(bs, k),
    ensures
        (choose|i: int| first_starred(bs, i)) == k,
{
    let c = choose|i: int| first_starred(bs, i);
    if c < k {
        assert(bs[c].starred);
    } else if k < c {
        assert(bs[k].starred);
    }
}

/// Newly scanned builds with the recorded star carried over: the first
/// build at the starred path, if any, is starred.
pub open spec fn with_star(bs: Seq<BuildEntryView>, star: Option<Seq<char>>) -> Seq<BuildEntryView> {
    match star {
        Some(x) => if has_path(bs, x) {
            star_at(bs, index_with_path(bs, x))
        } else {
            bs
        },
        None => bs,
    }
}

/// Whether merging a scan changes the project.
pub open spec fn scan_changes(p: ProjectView, detected: Seq<BuildEntryView>) -> bool {
    p.builds != with_star(detected, starred_path_of(p)) || starred_path_of(p) != p.star
}

/// The project after a scan is merged in.
pub open spec fn merged_project(p: ProjectView, detected: Seq<BuildEntryView>) -> ProjectView {
    ProjectView {
        builds: with_star(detected, starred_path_of(p)),
        star: starred_path_of(p),
        ..p
    }
}

fn builds_equal(a: &Vec<BuildEntry>, b: &Vec<BuildEntry>) -> (r: bool)
    ensures
        r == (builds_view(a@) == builds_view(b@)),
{
    if a.len() != b.len() {
        assert(builds_view(a@).len() != builds_view(b@).len());
        return false;
    }
    let mut i: usize = 0;
    while i < a.len()
        invariant
            i <= a.len(),
            a.len() == b.len(),
            forall|j: int| 0 <= j < i ==> a@[j]@ == b@[j]@,
        decreases a.len() - i,
    {
        let x = &a[i];
        let y = &b[i];
        let same_created = match (&x.created_on, &y.created_on) {
            (Some(c), Some(d)) => str_equals(c.as_str(), d.as_str()),
            (None, None) => true,
            _ => false,
        };
        if !(str_equals(x.name.as_str(), y.name.as_str()) && str_equals(
            x.path.as_str(),
            y.path.as_str(),
        ) && same_created && x.starred == y.starred) {
            assert(builds_view(a@)[i as int] != builds_view(b@)[i as int]);
            return false;
        }
        i = i + 1;
    }
    assert(builds_view(a@) =~= builds_view(b@));
    true
}

fn opt_str_equal(a: &Option<String>, b: &Option<String>) -> (r: bool)
    ensures
        r == (opt_view(*a) == opt_view(*b)),
{
    match (a, b) {
        (Some(x), Some(y)) => str_equals(x.as_str(), y.as_str()),
        (None, None) => true,
        _ => false,
    }
}

/// What a rescan of a project's builds needs: nothing for a project that is
/// not an Android project (its recorded build count stands), else the folder
/// to scan.
pub enum ScanTarget {
    Skip { build_count: usize },
    Scan { main_path: String },
}

/// Projects whose stored type is unknown are treated as Android projects.
pub open spec fn scans_builds(p: ProjectView) -> bool {
    match type_from_storage(p.project_type) {
        Some(t) => t == ProjectType::Android,
        None => true,
    }
}

impl ProjectStore {
    /// Stars the build at `path` of the project called `name`, or unstars it
    /// when it is starred; returns whether the project was found (and so
    /// whether the list must be saved).
    pub fn toggle_build_star(&mut self, name: &str, path: &str) -> (found: bool)
        ensures
            found == has_named(old(self)@, name@),
            !found ==> final(self)@ == old(self)@,
            found ==> final(self)@ == old(self)@.update(
                index_named(old(self)@, name@),
                toggled_project(old(self)@[index_named(old(self)@, name@)], path@),
            ),
    {
        let k = match self.find(name) {
            None => return false,
            Some(k) => k,
        };
        proof {
            lemma_index_named(self@, name@);
            crate::store::lemma_first_unique(self@, name@, k as int, index_named(self@, name@));
        }
        let ghost p = self@[k as int];
        let hit = find_build(&self.projects[k].builds, path);
        let was = match hit {
            Some(j) => self.projects[k].builds[j].starred,
            None => false,
        };
        let mut cleared = unstarred_copy(&self.projects[k].builds);
        assert(builds_view(cleared@).len() == cleared@.len());
        assert(builds_view(self.projects[k as int].builds@).len() == self.projects[k as int].builds@.len());
        if !was {
            match hit {
                Some(j) => {
                    proof {
                        lemma_index_with_path(p.builds, path@, j as int);
                    }
                    let mut b = cleared[j].duplicate();
                    b.starred = true;
                    cleared.set(j, b);
                    proof {
                        assert(builds_view(cleared@) =~= star_at(unstarred(p.builds), j as int));
                    }
                    self.projects[k].builds = cleared;
                    self.projects[k].star = Some(path.to_string());
                },
                None => {
                    self.projects[k].builds = cleared;
                },
            }
        } else {
            proof {
                lemma_index_with_path(p.builds, path@, hit->0 as int);
            }
            self.projects[k].builds = cleared;
            self.projects[k].star = None;
        }
        proof {
            let b = crate::models::projects_view(old(self).projects@);
            assert(crate::models::projects_view(self.projects@) =~= b.update(
                k as int,
                toggled_project(p, path@),
            ));
        }
        true
    }

    /// What a rescan of the project called `name` needs; an error when there
    /// is no such project.
    pub fn scan_target(&self, name: &str) -> (r: Result<ScanTarget, String>)
        ensures
            r is Err <==> !has_named(self@, name@),
            r is Err ==> r->Err_0@ == crate::store::project_message(name@, "' not found."@),
            r is Ok ==> {
                let p = self@[index_named(self@, name@)];
                match r->Ok_0 {
                    ScanTarget::Skip { build_count } => !scans_builds(p) && build_count
                        == p.builds.len(),
                    ScanTarget::Scan { main_path } => scans_builds(p) && main_path@
                        == p.main_path,
                }
            },
    {
        match self.find(name) {
            None => Err(crate::store::project_message_text(name, "' not found.")),
            Some(k) => {
                proof {
                    lemma_index_named(self@, name@);
                    crate::store::lemma_first_unique(self@, name@, k as int, index_named(self@, name@));
                }
                let p = &self.projects[k];
                let t = match ProjectType::from_storage(p.project_type.as_str()) {
                    Some(t) => t,
                    None => ProjectType::Android,
                };
                if t != ProjectType::Android {
                    Ok(ScanTarget::Skip { build_count: p.builds.len() })
                } else {
                    Ok(ScanTarget::Scan { main_path: p.main_path.clone() })
                }
            },
        }
    }

    /// Merges the builds found by a scan into the project called `name`,
    /// carrying the recorded star over; returns the number of builds found
    /// and whether the project changed (and so whether the list must be
    /// saved).
    pub fn merge_detected_builds(&mut self, name: &str, detected: Vec<BuildEntry>) -> (r: (
        usize,
        bool,
    ))
        ensures
            r.0 == detected@.len(),
            !has_named(old(self)@, name@) ==> final(self)@ == old(self)@ && !r.1,
            has_named(old(self)@, name@) ==> {
                let i = index_named(old(self)@, name@);
                let p = old(self)@[i];
                &&& r.1 == scan_changes(p, builds_view(detected@))
                &&& r.1 ==> final(self)@ == old(self)@.update(
                    i,
                    merged_project(p, builds_view(detected@)),
                )
                &&& !r.1 ==> final(self)@ == old(self)@
            },
    {
        let count = detected.len();
        let k = match self.find(name) {
            None => return (count, false),
            Some(k) => k,
        };
        proof {
            lemma_index_named(self@, name@);
            crate::store::lemma_first_unique(self@, name@, k as int, index_named(self@, name@));
        }
        let ghost p = self@[k as int];
        let mut starred: Option<String> = crate::models::clone_opt_string(&self.projects[k].star);
        if starred.is_none() {
            let bs = &self.projects[k].builds;
            let mut j: usize = 0;
            while j < bs.len() && !bs[j].starred
                invariant
                    j <= bs.len(),
                    builds_view(bs@) == p.builds,
                    forall|q: int| 0 <= q < j ==> !p.builds[q].starred,
                decreases bs.len() - j,
            {
                j = j + 1;
            }
            if j < bs.len() {
                proof {
                    assert(first_starred(p.builds, j as int));
                    lemma_first_starred_unique(p.builds, j as int);
                }
                starred = Some(bs[j].path.clone());
            }
        }
        assert(opt_view(starred) == starred_path_of(p));
        let mut builds = detected;
        let ghost dv = builds_view(builds@);
        match &starred {
            Some(x) => {
                match find_build(&builds, x.as_str()) {
                    Some(j) => {
                        proof {
                            lemma_index_with_path(dv, x@, j as int);
                        }
                        let mut b = builds[j].duplicate();
                        b.starred = true;
                        builds.set(j, b);
                        proof {
                            assert(builds_view(builds@) =~= star_at(dv, j as int));
                        }
                    },
                    None => {},
                }
            },
            None => {},
        }
        assert(builds_view(builds@) == with_star(dv, starred_path_of(p)));
        let changed = !builds_equal(&self.projects[k].builds, &builds) || !opt_str_equal(
            &starred,
            &self.projects[k].star,
        );
        if changed {
            self.projects[k].builds = builds;
            self.projects[k].star = starred;
            proof {
                let b = crate::models::projects_view(old(self).projects@);
                assert(crate::models::projects_view(self.projects@) =~= b.update(
                    k as int,
                    merged_project(p, dv),
                ));
            }
        }
        (count, changed)
    }
}

} // verus!
