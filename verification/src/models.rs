//! The records kept in the projects file: project types, projects and builds.
use crate::text::{
    ascii_lower, ascii_lower_seq, is_white_space, leading_ws, lemma_trim_padded, str_equals,
    to_ascii_lower, trailing_ws, trim, trim_seq,
};
use vstd::prelude::*;

verus! {

/// The frameworks a project can be built with.
#[derive(Clone, Copy, PartialEq, Eq, Structural, Debug)]
pub enum ProjectType {
    Android,
    Flutter,
    DotNet,
    Python,
    ReactNative,
}

/// The display label of a project type.
pub open spec fn type_label(t: ProjectType) -> Seq<char> {
    match t {
        ProjectType::Android => "Android Studio"@,
        ProjectType::Flutter => "Flutter"@,
        ProjectType::DotNet => ".NET"@,
        ProjectType::Python => "Python"@,
        ProjectType::ReactNative => "React Native"@,
    }
}

/// The project type named by an already trimmed, ASCII-lower-cased key.
pub open spec fn type_for_key(key: Seq<char>) -> Option<ProjectType> {
    if key == "android"@ || key == "android studio"@ {
        Some(ProjectType::Android)
    } else if key == "flutter"@ {
        Some(ProjectType::Flutter)
    } else if key == ".net"@ || key == "dotnet"@ {
        Some(ProjectType::DotNet)
    } else if key == "python"@ {
        Some(ProjectType::Python)
    } else if key == "react native"@ || key == "react-native"@ {
        Some(ProjectType::ReactNative)
    } else {
        None
    }
}

/// What `ProjectType::from_storage` reads from a stored value.
pub open spec fn type_from_storage(value: Seq<char>) -> Option<ProjectType> {
    type_for_key(ascii_lower_seq(trim_seq(value)))
}

/// A project type's stored name, in any ASCII letter case and with white
/// space around it, reads back as that type.
pub proof fn padded_storage_roundtrip(t: ProjectType, pre: Seq<char>, m: Seq<char>, post: Seq<char>)
    requires
        forall|j: int| 0 <= j < pre.len() ==> is_white_space(#[trigger] pre[j]),
        forall|j: int| 0 <= j < post.len() ==> is_white_space(#[trigger] post[j]),
        ascii_lower_seq(m) == ascii_lower_seq(type_label(t)),
    ensures
        type_from_storage(pre + m + post) == Some(t),
{
    reveal_strlit("Android Studio");
    reveal_strlit("Flutter");
    reveal_strlit(".NET");
    reveal_strlit("Python");
    reveal_strlit("React Native");
    let label = type_label(t);
    let ll = ascii_lower_seq(label);
    assert(ascii_lower_seq(m).len() == m.len());
    assert(ll.len() == label.len());
    assert(m.len() == label.len());
    assert(label.len() > 0);
    let last = label.len() - 1;
    assert(ll[0] == ascii_lower(label[0]));
    assert(ll[last] == ascii_lower(label[last]));
    assert(!is_white_space(label[0]) && !is_white_space(label[last]));
    assert(!is_white_space(ll[0]) && !is_white_space(ll[last]));
    assert(ascii_lower_seq(m)[0] == ascii_lower(m[0]));
    assert(ascii_lower_seq(m)[last] == ascii_lower(m[last]));
    assert(!is_white_space(m[0]));
    assert(!is_white_space(m.last()));
    lemma_trim_padded(pre, m, post);
    lemma_trim_padded(Seq::empty(), label, Seq::empty());
    assert(Seq::<char>::empty() + label + Seq::<char>::empty() =~= label);
    storage_roundtrip(t);
}

impl ProjectType {
    pub fn label(self) -> (r: &'static str)
        ensures
            r@ == type_label(self),
    {
        match self {
            ProjectType::Android => "Android Studio",
            ProjectType::Flutter => "Flutter",
            ProjectType::DotNet => ".NET",
            ProjectType::Python => "Python",
            ProjectType::ReactNative => "React Native",
        }
    }

    /// The value written to the projects file: the label.
    pub fn storage_value(self) -> (r: &'static str)
        ensures
            r@ == type_label(self),
    {
        self.label()
    }

    /// Every project type, in declaration order.
    pub fn all() -> (r: [Self; 5])
        ensures
            r@ == seq![
                ProjectType::Android,
                ProjectType::Flutter,
                ProjectType::DotNet,
                ProjectType::Python,
                ProjectType::ReactNative,
            ],
    {
        let r = [
            ProjectType::Android,
            ProjectType::Flutter,
            ProjectType::DotNet,
            ProjectType::Python,
            ProjectType::ReactNative,
        ];
        assert(r@ =~= seq![
            ProjectType::Android,
            ProjectType::Flutter,
            ProjectType::DotNet,
            ProjectType::Python,
            ProjectType::ReactNative,
        ]);
        r
    }

    /// Reads a stored project type: trimmed, ASCII case ignored, with a few
    /// accepted spellings.
    pub fn from_storage(value: &str) -> (r: Option<Self>)
        ensures
            r == type_from_storage(value@),
    {
        let trimmed = trim(value);
        let key = to_ascii_lower(trimmed.as_str());
        let k = key.as_str();
        if str_equals(k, "android") || str_equals(k, "android studio") {
            Some(ProjectType::Android)
        } else if str_equals(k, "flutter") {
            Some(ProjectType::Flutter)
        } else if str_equals(k, ".net") || str_equals(k, "dotnet") {
            Some(ProjectType::DotNet)
        } else if str_equals(k, "python") {
            Some(ProjectType::Python)
        } else if str_equals(k, "react native") || str_equals(k, "react-native") {
            Some(ProjectType::ReactNative)
        } else {
            None
        }
    }
}

impl Default for ProjectType {
    fn default() -> (r: Self)
        ensures
            r == ProjectType::Android,
    {
        ProjectType::Android
    }
}

/// Reading back the stored value of a project type gives that type.
pub proof fn storage_roundtrip(t: ProjectType)
    ensures
        type_from_storage(type_label(t)) == Some(t),
{
    reveal_strlit("Android Studio");
    reveal_strlit("Flutter");
    reveal_strlit(".NET");
    reveal_strlit("Python");
    reveal_strlit("React Native");
    reveal_strlit("android");
    reveal_strlit("android studio");
    reveal_strlit("flutter");
    reveal_strlit(".net");
    reveal_strlit("dotnet");
    reveal_strlit("python");
    reveal_strlit("react native");
    reveal_strlit("react-native");
    let s = type_label(t);
    assert(leading_ws(s) == 0);
    assert(trailing_ws(s) == 0);
    assert(trim_seq(s) =~= s);
    match t {
        ProjectType::Android => {
            assert(ascii_lower_seq(s) =~= "android studio"@);
            assert("android studio"@ != "android"@) by {
                assert("android studio"@.len() != "android"@.len());
            }
            assert(type_for_key("android studio"@) == Some(ProjectType::Android));
            assert(type_from_storage(s) == Some(t));
        },
        ProjectType::Flutter => {
            assert(ascii_lower_seq(s) =~= "flutter"@);
            assert("flutter"@[0] != "android"@[0]);
            assert("flutter"@ != "android studio"@) by {
                assert("flutter"@.len() != "android studio"@.len());
            }
            assert(type_from_storage(s) == Some(t));
        },
        ProjectType::DotNet => {
            assert(ascii_lower_seq(s) =~= ".net"@);
            assert(".net"@[0] != "android"@[0]);
            assert(".net"@[0] != "android studio"@[0]);
            assert(".net"@[0] != "flutter"@[0]);
            assert(type_from_storage(s) == Some(t));
        },
        ProjectType::Python => {
            assert(ascii_lower_seq(s) =~= "python"@);
            assert("python"@[0] != "android"@[0]);
            assert("python"@[0] != "android studio"@[0]);
            assert("python"@[0] != "flutter"@[0]);
            assert("python"@[0] != ".net"@[0]);
            assert("python"@[0] != "dotnet"@[0]);
            assert(type_from_storage(s) == Some(t));
        },
        ProjectType::ReactNative => {
            assert(ascii_lower_seq(s) =~= "react native"@);
            assert("react native"@[0] != "android"@[0]);
            assert("react native"@[0] != "android studio"@[0]);
            assert("react native"@[0] != "flutter"@[0]);
            assert("react native"@[0] != ".net"@[0]);
            assert("react native"@[0] != "dotnet"@[0]);
            assert("react native"@[0] != "python"@[0]);
            assert(type_from_storage(s) == Some(t));
        },
    }
}

/// The create/edit form.
pub struct CreateProjectForm {
    pub name: String,
    pub main_path: String,
    pub project_type: ProjectType,
}

impl Default for CreateProjectForm {
    fn default() -> (r: Self)
        ensures
            r.name@ == Seq::<char>::empty(),
            r.main_path@ == Seq::<char>::empty(),
            r.project_type == ProjectType::Android,
    {
        CreateProjectForm {
            name: String::new(),
            main_path: String::new(),
            project_type: ProjectType::Android,
        }
    }
}

/// One build artifact of a project.
pub struct BuildEntry {
    pub name: String,
    pub path: String,
    pub created_on: Option<String>,
    pub starred: bool,
}

pub struct BuildEntryView {
    pub name: Seq<char>,
    pub path: Seq<char>,
    pub created_on: Option<Seq<char>>,
    pub starred: bool,
}

pub open spec fn opt_view(o: Option<String>) -> Option<Seq<char>> {
    match o {
        Some(s) => Some(s@),
        None => None,
    }
}

impl View for BuildEntry {
    type V = BuildEntryView;

    open spec fn view(&self) -> BuildEntryView {
        BuildEntryView {
            name: self.name@,
            path: self.path@,
            created_on: opt_view(self.created_on),
            starred: self.starred,
        }
    }
}

pub fn clone_opt_string(o: &Option<String>) -> (r: Option<String>)
    ensures
        opt_view(r) == opt_view(*o),
{
    match o {
        Some(s) => Some(s.clone()),
        None => None,
    }
}

impl BuildEntry {
    pub fn duplicate(&self) -> (r: BuildEntry)
        ensures
            r@ == self@,
    {
        BuildEntry {
            name: self.name.clone(),
            path: self.path.clone(),
            created_on: clone_opt_string(&self.created_on),
            starred: self.starred,
        }
    }
}

pub open spec fn builds_view(v: Seq<BuildEntry>) -> Seq<BuildEntryView> {
    v.map_values(|b: BuildEntry| b@)
}

pub fn duplicate_builds(v: &Vec<BuildEntry>) -> (r: Vec<BuildEntry>)
    ensures
        builds_view(r@) == builds_view(v@),
{
    let mut r: Vec<BuildEntry> = Vec::new();
    let mut i: usize = 0;
    while i < v.len()
        invariant
            i <= v.len(),
            r.len() == i,
            builds_view(r@) == builds_view(v@.subrange(0, i as int)),
        decreases v.len() - i,
    {
        let b = v[i].duplicate();
        let ghost old_r = r@;
        r.push(b);
        proof {
            assert(r@ == old_r.push(b));
            assert(b@ == v@[i as int]@);
            assert(v@.subrange(0, i + 1) =~= v@.subrange(0, i as int).push(v@[i as int]));
            let sub = v@.subrange(0, i + 1);
            assert forall|j: int| 0 <= j < i + 1 implies #[trigger] builds_view(r@)[j]
                == builds_view(sub)[j] by {
                if j < i {
                    assert(r@[j] == old_r[j]);
                    assert(builds_view(old_r)[j] == old_r[j]@);
                    assert(builds_view(old_r)[j] == builds_view(v@.subrange(0, i as int))[j]);
                    assert(sub[j] == v@.subrange(0, i as int)[j]);
                } else {
                    assert(r@[j] == b);
                    assert(sub[j] == v@[i as int]);
                }
            }
            assert(builds_view(r@) =~= builds_view(sub));
        }
        i = i + 1;
    }
    assert(v@.subrange(0, v.len() as int) =~= v@);
    r
}

/// One project as kept in the projects file.
pub struct ProjectRecord {
    pub name: String,
    pub project_type: String,
    pub main_path: String,
    pub builds: Vec<BuildEntry>,
    pub added_file: Option<String>,
    pub stream_type: Option<String>,
    pub star: Option<String>,
    pub status: String,
    pub created_on: String,
    pub edited_on: String,
}

pub struct ProjectView {
    pub name: Seq<char>,
    pub project_type: Seq<char>,
    pub main_path: Seq<char>,
    pub builds: Seq<BuildEntryView>,
    pub added_file: Option<Seq<char>>,
    pub stream_type: Option<Seq<char>>,
    pub star: Option<Seq<char>>,
    pub status: Seq<char>,
    pub created_on: Seq<char>,
    pub edited_on: Seq<char>,
}

impl View for ProjectRecord {
    type V = ProjectView;

    open spec fn view(&self) -> ProjectView {
        ProjectView {
            name: self.name@,
            project_type: self.project_type@,
            main_path: self.main_path@,
            builds: builds_view(self.builds@),
            added_file: opt_view(self.added_file),
            stream_type: opt_view(self.stream_type),
            star: opt_view(self.star),
            status: self.status@,
            created_on: self.created_on@,
            edited_on: self.edited_on@,
        }
    }
}

impl ProjectRecord {
    pub fn duplicate(&self) -> (r: ProjectRecord)
        ensures
            r@ == self@,
    {
        ProjectRecord {
            name: self.name.clone(),
            project_type: self.project_type.clone(),
            main_path: self.main_path.clone(),
            builds: duplicate_builds(&self.builds),
            added_file: clone_opt_string(&self.added_file),
            stream_type: clone_opt_string(&self.stream_type),
            star: clone_opt_string(&self.star),
            status: self.status.clone(),
            created_on: self.created_on.clone(),
            edited_on: self.edited_on.clone(),
        }
    }
}

pub open spec fn projects_view(v: Seq<ProjectRecord>) -> Seq<ProjectView> {
    v.map_values(|p: ProjectRecord| p@)
}

} // verus!
