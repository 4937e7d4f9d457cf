//! The project list and the operations that change it: creating and editing
//! projects, moving them between the active list, the archive and the bin,
//! deleting them, and setting per-project options.
use crate::models::{
    opt_view, projects_view, type_label, CreateProjectForm, ProjectRecord, ProjectView,
};
use crate::text::{ascii_lower_seq, concat3, decimal, decimal_string, eq_ignore_ascii_case, str_equals, trim, trim_seq};
use vstd::prelude::*;

verus! {

/// Whether the form creates a new project or edits the one named.
pub enum ModalMode {
    Create,
    Edit { original_name: String },
}

/// The projects, in the order of the projects file.
pub struct ProjectStore {
    pub projects: Vec<ProjectRecord>,
}

impl View for ProjectStore {
    type V = Seq<ProjectView>;

    open spec fn view(&self) -> Seq<ProjectView> {
        projects_view(self.projects@)
    }
}

/// Index `i` holds the first project called `name`.
pub open spec fn first_named(ps: Seq<ProjectView>, name: Seq<char>, i: int) -> bool {
    &&& 0 <= i < ps.len()
    &&& ps[i].name == name
    &&& forall|j: int| 0 <= j < i ==> ps[j].name != name
}

/// Some project is called `name`.
pub open spec fn has_named(ps: Seq<ProjectView>, name: Seq<char>) -> bool {
    exists|i: int| 0 <= i < ps.len() && ps[i].name == name
}

/// The index of the first project called `name` (meaningful when one is).
pub open spec fn index_named(ps: Seq<ProjectView>, name: Seq<char>) -> int {
    choose|i: int| first_named(ps, name, i)
}

pub proof fn lemma_index_named(ps: Seq<ProjectView>, name: Seq<char>)
    requires
        has_named(ps, name),
    ensures
        first_named(ps, name, index_named(ps, name)),
{
    let w = choose|i: int| 0 <= i < ps.len() && ps[i].name == name;
    lemma_first_exists(ps, name, w);
}

proof fn lemma_first_exists(ps: Seq<ProjectView>, name: Seq<char>, w: int)
    requires
        0 <= w < ps.len(),
        ps[w].name == name,
    ensures
        exists|i: int| first_named(ps, name, i),
    decreases w,
{
    if forall|j: int| 0 <= j < w ==> ps[j].name != name {
        assert(first_named(ps, name, w));
    } else {
        let v = choose|j: int| 0 <= j < w && ps[j].name == name;
        lemma_first_exists(ps, name, v);
    }
}

/// The message `Project '<name>'<rest>`.
pub open spec fn project_message(name: Seq<char>, rest: Seq<char>) -> Seq<char> {
    "Project '"@ + name + rest
}

pub fn project_message_text(name: &str, rest: &str) -> (r: String)
    ensures
        r@ == project_message(name@, rest@),
{
    concat3("Project '", name, rest)
}

/// The project at `i` with a new status, edited on `today`.
pub open spec fn restated(p: ProjectView, status: Seq<char>, today: Seq<char>) -> ProjectView {
    ProjectView { status: status, edited_on: today, ..p }
}

/// The statuses a project moves between.
pub open spec fn active() -> Seq<char> {
    "active"@
}

pub open spec fn archived() -> Seq<char> {
    "archived"@
}

pub open spec fn deleted() -> Seq<char> {
    "deleted"@
}

/// A project with its name counted as taken by a form whose name is `name`:
/// equal ignoring ASCII case, and not the project being edited.
pub open spec fn name_taken(ps: Seq<ProjectView>, name: Seq<char>, editing: Option<Seq<char>>) -> bool {
    exists|i: int|
        0 <= i < ps.len() && ascii_lower_seq(ps[i].name) == ascii_lower_seq(name) && Some(
            ps[i].name,
        ) != editing
}

pub open spec fn new_project(
    name: Seq<char>,
    project_type: Seq<char>,
    main_path: Seq<char>,
    today: Seq<char>,
) -> ProjectView {
    ProjectView {
        name: name,
        project_type: project_type,
        main_path: main_path,
        builds: Seq::empty(),
        added_file: None,
        stream_type: Some("localhost-token"@),
        star: None,
        status: "active"@,
        created_on: today,
        edited_on: today,
    }
}

pub open spec fn edited_project(
    p: ProjectView,
    name: Seq<char>,
    project_type: Seq<char>,
    main_path: Seq<char>,
    today: Seq<char>,
) -> ProjectView {
    ProjectView { name: name, project_type: project_type, main_path: main_path, edited_on: today, ..p }
}

pub open spec fn mode_editing(mode: ModalMode) -> Option<Seq<char>> {
    match mode {
        ModalMode::Create => None,
        ModalMode::Edit { original_name } => Some(original_name@),
    }
}

/// What `create_project` does, as a relation between the list before and
/// after and the result.
pub open spec fn create_outcome(
    before: Seq<ProjectView>,
    after: Seq<ProjectView>,
    form_name: Seq<char>,
    form_path: Seq<char>,
    form_type: Seq<char>,
    editing: Option<Seq<char>>,
    today: Seq<char>,
    r: Result<Seq<char>, Seq<char>>,
) -> bool {
    let name = trim_seq(form_name);
    let path = trim_seq(form_path);
    if name.len() == 0 {
        after == before && r == Err::<Seq<char>, Seq<char>>("Project name is required."@)
    } else if path.len() == 0 {
        after == before && r == Err::<Seq<char>, Seq<char>>(
            "Project path is required. Paste a path or use Browse."@,
        )
    } else if name_taken(before, name, editing) {
        after == before && r == Err::<Seq<char>, Seq<char>>(
            "A project named '"@ + name + "' already exists."@,
        )
    } else {
        match editing {
            None => after == before.push(new_project(name, form_type, path, today)) && r == Ok::<
                Seq<char>,
                Seq<char>,
            >(project_message(name, "' created."@)),
            Some(orig) => if has_named(before, orig) {
                after == before.update(
                    index_named(before, orig),
                    edited_project(before[index_named(before, orig)], name, form_type, path, today),
                ) && r == Ok::<Seq<char>, Seq<char>>(project_message(name, "' updated."@))
            } else {
                after == before && r == Err::<Seq<char>, Seq<char>>(
                    "Project '"@ + orig + "' not found for edit."@,
                )
            },
        }
    }
}

pub open spec fn result_view(r: Result<String, String>) -> Result<Seq<char>, Seq<char>> {
    match r {
        Ok(s) => Ok(s@),
        Err(e) => Err(e@),
    }
}

pub open spec fn outside_bin() -> spec_fn(ProjectView) -> bool {
    |p: ProjectView| p.status != deleted()
}

pub open spec fn not_one_of(names: Seq<Seq<char>>) -> spec_fn(ProjectView) -> bool {
    |p: ProjectView| !names.contains(p.name)
}

pub open spec fn one_of(names: Seq<Seq<char>>) -> spec_fn(ProjectView) -> bool {
    |p: ProjectView| names.contains(p.name)
}

pub open spec fn not_called(name: Seq<char>) -> spec_fn(ProjectView) -> bool {
    |p: ProjectView| p.name != name
}

/// The projects whose status is not `deleted`, in their order.
pub open spec fn not_in_bin(ps: Seq<ProjectView>) -> Seq<ProjectView> {
    ps.filter(outside_bin())
}

/// The projects not called any of `names`, in their order.
pub open spec fn without_names(ps: Seq<ProjectView>, names: Seq<Seq<char>>) -> Seq<ProjectView> {
    ps.filter(not_one_of(names))
}

/// The projects not called `name`, in their order.
pub open spec fn without_name(ps: Seq<ProjectView>, name: Seq<char>) -> Seq<ProjectView> {
    ps.filter(not_called(name))
}

/// Every project called one of `names` gets `status`, edited on `today`;
/// the others are unchanged.
pub open spec fn bulk_restated(
    before: Seq<ProjectView>,
    after: Seq<ProjectView>,
    names: Seq<Seq<char>>,
    status: Seq<char>,
    today: Seq<char>,
) -> bool {
    &&& after.len() == before.len()
    &&& forall|i: int|
        0 <= i < before.len() ==> #[trigger] after[i] == if names.contains(before[i].name) {
            restated(before[i], status, today)
        } else {
            before[i]
        }
}

/// Number of projects called one of `names`.
pub open spec fn count_named(ps: Seq<ProjectView>, names: Seq<Seq<char>>) -> nat {
    ps.filter(one_of(names)).len()
}

pub open spec fn strings_view(v: Seq<String>) -> Seq<Seq<char>> {
    v.map_values(|s: String| s@)
}

fn names_contain(names: &Vec<String>, name: &str) -> (r: bool)
    ensures
        r == strings_view(names@).contains(name@),
{
    let mut i: usize = 0;
    while i < names.len()
        invariant
            i <= names.len(),
            forall|j: int| 0 <= j < i ==> names@[j]@ != name@,
        decreases names.len() - i,
    {
        if str_equals(names[i].as_str(), name) {
            assert(strings_view(names@)[i as int] == name@);
            return true;
        }
        i = i + 1;
    }
    proof {
        if strings_view(names@).contains(name@) {
            let j = choose|j: int| 0 <= j < names@.len() && strings_view(names@)[j] == name@;
            assert(names@[j]@ == name@);
        }
    }
    false
}

impl ProjectStore {
    /// The first project called `name`.
    pub fn find(&self, name: &str) -> (r: Option<usize>)
        ensures
            match r {
                Some(i) => first_named(self@, name@, i as int),
                None => !has_named(self@, name@),
            },
    {
        let mut i: usize = 0;
        while i < self.projects.len()
            invariant
                i <= self.projects.len(),
                forall|j: int| 0 <= j < i ==> self@[j].name != name@,
            decreases self.projects.len() - i,
        {
            if str_equals(self.projects[i].name.as_str(), name) {
                return Some(i);
            }
            i = i + 1;
        }
        None
    }

    /// A copy of the first project called `name`.
    pub fn selected_project(&self, name: &str) -> (r: Option<ProjectRecord>)
        ensures
            match r {
                Some(p) => has_named(self@, name@) && p@ == self@[index_named(self@, name@)],
                None => !has_named(self@, name@),
            },
    {
        match self.find(name) {
            Some(i) => {
                proof {
                    lemma_index_named(self@, name@);
                    lemma_first_unique(self@, name@, i as int, index_named(self@, name@));
                }
                Some(self.projects[i].duplicate())
            },
            None => None,
        }
    }

    /// Gives the first project called `name` a new status, edited on `today`.
    fn restate(&mut self, name: &str, status: &str, today: &str) -> (r: Result<(), String>)
        ensures
            has_named(old(self)@, name@) <==> r is Ok,
            r is Ok ==> final(self)@ == old(self)@.update(
                index_named(old(self)@, name@),
                restated(old(self)@[index_named(old(self)@, name@)], status@, today@),
            ),
            r is Err ==> final(self)@ == old(self)@ && r->Err_0@ == project_message(
                name@,
                "' not found."@,
            ),
    {
        match self.find(name) {
            None => Err(project_message_text(name, "' not found.")),
            Some(k) => {
                proof {
                    lemma_index_named(self@, name@);
                    lemma_first_unique(self@, name@, k as int, index_named(self@, name@));
                }
                self.projects[k].status = status.to_string();
                self.projects[k].edited_on = today.to_string();
                proof {
                    let b = projects_view(old(self).projects@);
                    assert(projects_view(self.projects@) =~= b.update(
                        k as int,
                        restated(b[k as int], status@, today@),
                    ));
                }
                Ok(())
            },
        }
    }

    /// Moves the project called `name` to the archive; returns the message
    /// to show once the list is saved.
    pub fn archive_project(&mut self, name: &str, today: &str) -> (r: Result<String, String>)
        ensures
            has_named(old(self)@, name@) <==> r is Ok,
            r is Ok ==> final(self)@ == old(self)@.update(
                index_named(old(self)@, name@),
                restated(old(self)@[index_named(old(self)@, name@)], archived(), today@),
            ) && r->Ok_0@ == project_message(name@, "' archived."@),
            r is Err ==> final(self)@ == old(self)@ && r->Err_0@ == project_message(
                name@,
                "' not found."@,
            ),
    {
        match self.restate(name, "archived", today) {
            Ok(()) => Ok(project_message_text(name, "' archived.")),
            Err(e) => Err(e),
        }
    }

    /// Moves the project called `name` from the archive back to the active
    /// list.
    pub fn unarchive_project(&mut self, name: &str, today: &str) -> (r: Result<String, String>)
        ensures
            has_named(old(self)@, name@) <==> r is Ok,
            r is Ok ==> final(self)@ == old(self)@.update(
                index_named(old(self)@, name@),
                restated(old(self)@[index_named(old(self)@, name@)], active(), today@),
            ) && r->Ok_0@ == project_message(name@, "' unarchived."@),
            r is Err ==> final(self)@ == old(self)@ && r->Err_0@ == project_message(
                name@,
                "' not found."@,
            ),
    {
        match self.restate(name, "active", today) {
            Ok(()) => Ok(project_message_text(name, "' unarchived.")),
            Err(e) => Err(e),
        }
    }

    /// Moves the project called `name` to the bin.
    pub fn bin_project(&mut self, name: &str, today: &str) -> (r: Result<String, String>)
        ensures
            has_named(old(self)@, name@) <==> r is Ok,
            r is Ok ==> final(self)@ == old(self)@.update(
                index_named(old(self)@, name@),
                restated(old(self)@[index_named(old(self)@, name@)], deleted(), today@),
            ) && r->Ok_0@ == project_message(name@, "' moved to Bin."@),
            r is Err ==> final(self)@ == old(self)@ && r->Err_0@ == project_message(
                name@,
                "' not found."@,
            ),
    {
        match self.restate(name, "deleted", today) {
            Ok(()) => Ok(project_message_text(name, "' moved to Bin.")),
            Err(e) => Err(e),
        }
    }

    /// Restores the project called `name` from the bin to the active list.
    pub fn restore_project(&mut self, name: &str, today: &str) -> (r: Result<String, String>)
        ensures
            has_named(old(self)@, name@) <==> r is Ok,
            r is Ok ==> final(self)@ == old(self)@.update(
                index_named(old(self)@, name@),
                restated(old(self)@[index_named(old(self)@, name@)], active(), today@),
            ) && r->Ok_0@ == project_message(name@, "' restored from Bin."@),
            r is Err ==> final(self)@ == old(self)@ && r->Err_0@ == project_message(
                name@,
                "' not found."@,
            ),
    {
        match self.restate(name, "active", today) {
            Ok(()) => Ok(project_message_text(name, "' restored from Bin.")),
            Err(e) => Err(e),
        }
    }

    /// Deletes every project called `name`; an error when there is none.
    pub fn permanent_delete_project(&mut self, name: &str) -> (r: Result<String, String>)
        ensures
            has_named(old(self)@, name@) <==> r is Ok,
            final(self)@ == without_name(old(self)@, name@),
            r is Ok ==> r->Ok_0@ == project_message(name@, "' permanently deleted."@),
            r is Err ==> r->Err_0@ == project_message(name@, "' not found."@),
    {
        let ghost before = self@;
        let mut kept: Vec<ProjectRecord> = Vec::new();
        let mut i: usize = 0;
        while i < self.projects.len()
            invariant
                i <= self.projects.len(),
                self@ == before,
                projects_view(kept@) == without_name(before.subrange(0, i as int), name@),
                kept@.len() == i ==> forall|j: int| 0 <= j < i ==> before[j].name != name@,
                kept@.len() <= i,
            decreases self.projects.len() - i,
        {
            proof {
                lemma_view_prefix(self.projects@, i as int);
                assert(before.subrange(0, i + 1) =~= before.subrange(0, i as int).push(before[i as int]));
                before.subrange(0, i as int).lemma_filter_push(before[i as int], not_called(name@));
                before.subrange(0, i as int).lemma_filter_len(not_called(name@));
            }
            if !str_equals(self.projects[i].name.as_str(), name) {
                let p = self.projects[i].duplicate();
                proof {
                    lemma_view_push(kept@, p);
                }
                kept.push(p);
            }
            i = i + 1;
        }
        proof {
            assert(before.subrange(0, before.len() as int) =~= before);
        }
        let found = kept.len() < self.projects.len();
        proof {
            if !found {
                assert(!has_named(before, name@));
            } else {
                if !has_named(before, name@) {
                    lemma_filter_all(before, not_called(name@));
                }
            }
        }
        self.projects = kept;
        if found {
            Ok(project_message_text(name, "' permanently deleted."))
        } else {
            Err(project_message_text(name, "' not found."))
        }
    }

    /// Deletes every project in the bin; returns how many were deleted.
    pub fn empty_bin(&mut self) -> (removed: usize)
        ensures
            final(self)@ == not_in_bin(old(self)@),
            removed == old(self)@.len() - final(self)@.len(),
    {
        let ghost before = self@;
        let mut kept: Vec<ProjectRecord> = Vec::new();
        let mut i: usize = 0;
        while i < self.projects.len()
            invariant
                i <= self.projects.len(),
                self@ == before,
                projects_view(kept@) == not_in_bin(before.subrange(0, i as int)),
                kept@.len() <= i,
            decreases self.projects.len() - i,
        {
            proof {
                lemma_view_prefix(self.projects@, i as int);
                assert(before.subrange(0, i + 1) =~= before.subrange(0, i as int).push(before[i as int]));
                before.subrange(0, i as int).lemma_filter_push(before[i as int], outside_bin());
                before.subrange(0, i as int).lemma_filter_len(outside_bin());
            }
            if !str_equals(self.projects[i].status.as_str(), "deleted") {
                let p = self.projects[i].duplicate();
                proof {
                    lemma_view_push(kept@, p);
                }
                kept.push(p);
            }
            i = i + 1;
        }
        proof {
            assert(before.subrange(0, before.len() as int) =~= before);
        }
        let removed = self.projects.len() - kept.len();
        self.projects = kept;
        removed
    }

    /// Deletes every project called one of `names`; returns how many were
    /// deleted. An empty `names` changes nothing.
    pub fn bulk_permanent_delete_projects(&mut self, names: &Vec<String>) -> (removed: usize)
        ensures
            final(self)@ == without_names(old(self)@, strings_view(names@)),
            removed == old(self)@.len() - final(self)@.len(),
    {
        let ghost before = self@;
        let ghost nv = strings_view(names@);
        let mut kept: Vec<ProjectRecord> = Vec::new();
        let mut i: usize = 0;
        while i < self.projects.len()
            invariant
                i <= self.projects.len(),
                self@ == before,
                nv == strings_view(names@),
                projects_view(kept@) == without_names(before.subrange(0, i as int), nv),
                kept@.len() <= i,
            decreases self.projects.len() - i,
        {
            proof {
                lemma_view_prefix(self.projects@, i as int);
                assert(before.subrange(0, i + 1) =~= before.subrange(0, i as int).push(before[i as int]));
                before.subrange(0, i as int).lemma_filter_push(before[i as int], not_one_of(nv));
                before.subrange(0, i as int).lemma_filter_len(not_one_of(nv));
            }
            if !names_contain(names, self.projects[i].name.as_str()) {
                let p = self.projects[i].duplicate();
                proof {
                    lemma_view_push(kept@, p);
                }
                kept.push(p);
            }
            i = i + 1;
        }
        proof {
            assert(before.subrange(0, before.len() as int) =~= before);
        }
        let removed = self.projects.len() - kept.len();
        self.projects = kept;
        removed
    }

    /// Gives every project called one of `names` the status, edited on
    /// `today`; returns how many there were.
    fn bulk_restate(&mut self, names: &Vec<String>, status: &str, today: &str) -> (count: usize)
        ensures
            bulk_restated(old(self)@, final(self)@, strings_view(names@), status@, today@),
            count == count_named(old(self)@, strings_view(names@)),
    {
        let ghost before = self@;
        let ghost nv = strings_view(names@);
        let mut count: usize = 0;
        let mut i: usize = 0;
        while i < self.projects.len()
            invariant
                i <= self.projects.len(),
                self@.len() == before.len(),
                nv == strings_view(names@),
                count == before.subrange(0, i as int).filter(one_of(nv)).len(),
                count <= i,
                forall|j: int| i <= j < before.len() ==> #[trigger] self@[j] == before[j],
                forall|j: int|
                    0 <= j < i ==> #[trigger] self@[j] == if nv.contains(before[j].name) {
                        restated(before[j], status@, today@)
                    } else {
                        before[j]
                    },
            decreases self.projects.len() - i,
        {
            proof {
                assert(before.subrange(0, i + 1) =~= before.subrange(0, i as int).push(before[i as int]));
                before.subrange(0, i as int).lemma_filter_push(before[i as int], one_of(nv));
                assert(self@[i as int] == before[i as int]);
            }
            if names_contain(names, self.projects[i].name.as_str()) {
                let ghost mid = self@;
                self.projects[i].status = status.to_string();
                self.projects[i].edited_on = today.to_string();
                proof {
                    assert forall|j: int| 0 <= j < self@.len() && j != i implies #[trigger] self@[j]
                        == mid[j] by {
                        assert(self.projects@[j] == old(self).projects@[j] || true);
                    }
                }
                count = count + 1;
            }
            i = i + 1;
        }
        proof {
            assert(before.subrange(0, before.len() as int) =~= before);
        }
        count
    }

    /// Moves every project called one of `names` to the bin; returns how many.
    pub fn bulk_bin_projects(&mut self, names: &Vec<String>, today: &str) -> (count: usize)
        ensures
            bulk_restated(old(self)@, final(self)@, strings_view(names@), deleted(), today@),
            count == count_named(old(self)@, strings_view(names@)),
    {
        self.bulk_restate(names, "deleted", today)
    }

    /// Moves every project called one of `names` back to the active list.
    pub fn bulk_unarchive_projects(&mut self, names: &Vec<String>, today: &str) -> (count: usize)
        ensures
            bulk_restated(old(self)@, final(self)@, strings_view(names@), active(), today@),
            count == count_named(old(self)@, strings_view(names@)),
    {
        self.bulk_restate(names, "active", today)
    }

    /// Restores every project called one of `names` from the bin.
    pub fn bulk_restore_projects(&mut self, names: &Vec<String>, today: &str) -> (count: usize)
        ensures
            bulk_restated(old(self)@, final(self)@, strings_view(names@), active(), today@),
            count == count_named(old(self)@, strings_view(names@)),
    {
        self.bulk_restate(names, "active", today)
    }

    /// Sets how the project called `name` is served; returns whether it
    /// changed (and so whether the list must be saved).
    pub fn set_project_stream_type(&mut self, name: &str, stream_type: &str) -> (r: Result<bool, String>)
        ensures
            has_named(old(self)@, name@) <==> r is Ok,
            r is Err ==> final(self)@ == old(self)@ && r->Err_0@ == project_message(
                name@,
                "' not found."@,
            ),
            r is Ok ==> {
                let i = index_named(old(self)@, name@);
                let p = old(self)@[i];
                &&& r->Ok_0 == (p.stream_type != Some(stream_type@))
                &&& final(self)@ == old(self)@.update(i, ProjectView { stream_type: Some(stream_type@), ..p })
            },
    {
        match self.find(name) {
            None => Err(project_message_text(name, "' not found.")),
            Some(k) => {
                proof {
                    lemma_index_named(self@, name@);
                    lemma_first_unique(self@, name@, k as int, index_named(self@, name@));
                }
                let same = match &self.projects[k].stream_type {
                    Some(s) => str_equals(s.as_str(), stream_type),
                    None => false,
                };
                if same {
                    proof {
                        let b = old(self)@;
                        assert(b.update(k as int, ProjectView { stream_type: Some(stream_type@), ..b[k as int] }) =~= b);
                    }
                    return Ok(false);
                }
                self.projects[k].stream_type = Some(stream_type.to_string());
                proof {
                    let b = projects_view(old(self).projects@);
                    assert(projects_view(self.projects@) =~= b.update(
                        k as int,
                        ProjectView { stream_type: Some(stream_type@), ..b[k as int] },
                    ));
                }
                Ok(true)
            },
        }
    }

    /// Records an extra file to serve with the project called `name`;
    /// returns whether it changed.
    pub fn add_extra_file(&mut self, name: &str, file_path: &str) -> (r: Result<bool, String>)
        ensures
            has_named(old(self)@, name@) <==> r is Ok,
            r is Err ==> final(self)@ == old(self)@ && r->Err_0@ == project_message(
                name@,
                "' not found."@,
            ),
            r is Ok ==> {
                let i = index_named(old(self)@, name@);
                let p = old(self)@[i];
                &&& r->Ok_0 == (p.added_file != Some(file_path@))
                &&& final(self)@ == old(self)@.update(i, ProjectView { added_file: Some(file_path@), ..p })
            },
    {
        match self.find(name) {
            None => Err(project_message_text(name, "' not found.")),
            Some(k) => {
                proof {
                    lemma_index_named(self@, name@);
                    lemma_first_unique(self@, name@, k as int, index_named(self@, name@));
                }
                let same = match &self.projects[k].added_file {
                    Some(s) => str_equals(s.as_str(), file_path),
                    None => false,
                };
                if same {
                    proof {
                        let b = old(self)@;
                        assert(b.update(k as int, ProjectView { added_file: Some(file_path@), ..b[k as int] }) =~= b);
                    }
                    return Ok(false);
                }
                self.projects[k].added_file = Some(file_path.to_string());
                proof {
                    let b = projects_view(old(self).projects@);
                    assert(projects_view(self.projects@) =~= b.update(
                        k as int,
                        ProjectView { added_file: Some(file_path@), ..b[k as int] },
                    ));
                }
                Ok(true)
            },
        }
    }

    /// Creates a project from the form, or edits the one the form is editing.
    /// The name and path are trimmed; both are required, and the name must
    /// not equal (ignoring ASCII case) that of another project. Returns the
    /// message to show once the list is saved.
    pub fn create_project(
        &mut self,
        form: &CreateProjectForm,
        mode: &ModalMode,
        today: &str,
    ) -> (r: Result<String, String>)
        ensures
            create_outcome(
                old(self)@,
                final(self)@,
                form.name@,
                form.main_path@,
                type_label(form.project_type),
                mode_editing(*mode),
                today@,
                result_view(r),
            ),
    {
        let name = trim(form.name.as_str());
        let main_path = trim(form.main_path.as_str());
        if name.as_str().unicode_len() == 0 {
            return Err("Project name is required.".to_string());
        }
        if main_path.as_str().unicode_len() == 0 {
            return Err("Project path is required. Paste a path or use Browse.".to_string());
        }
        let editing: Option<&str> = match mode {
            ModalMode::Edit { original_name } => Some(original_name.as_str()),
            ModalMode::Create => None,
        };
        let mut i: usize = 0;
        while i < self.projects.len()
            invariant
                i <= self.projects.len(),
                self == old(self),
                name@ == trim_seq(form.name@),
                main_path@ == trim_seq(form.main_path@),
                name@.len() > 0,
                main_path@.len() > 0,
                match editing {
                    Some(e) => Some(e@) == mode_editing(*mode),
                    None => mode_editing(*mode) is None,
                },
                forall|j: int|
                    0 <= j < i ==> !(ascii_lower_seq(self@[j].name) == ascii_lower_seq(name@)
                        && Some(self@[j].name) != mode_editing(*mode)),
            decreases self.projects.len() - i,
        {
            let p = &self.projects[i];
            if eq_ignore_ascii_case(p.name.as_str(), name.as_str()) {
                let same = match editing {
                    Some(e) => str_equals(p.name.as_str(), e),
                    None => false,
                };
                if !same {
                    assert(name_taken(self@, name@, mode_editing(*mode))) by {
                        assert(ascii_lower_seq(self@[i as int].name) == ascii_lower_seq(name@));
                    }
                    return Err(concat3("A project named '", name.as_str(), "' already exists."));
                }
            }
            i = i + 1;
        }
        let type_text = form.project_type.storage_value();
        match mode {
            ModalMode::Create => {
                let project = ProjectRecord {
                    name: name.clone(),
                    project_type: type_text.to_string(),
                    main_path: main_path,
                    builds: Vec::new(),
                    added_file: None,
                    stream_type: Some("localhost-token".to_string()),
                    star: None,
                    status: "active".to_string(),
                    created_on: today.to_string(),
                    edited_on: today.to_string(),
                };
                let ghost pv = project@;
                proof {
                    assert(pv.builds =~= Seq::<crate::models::BuildEntryView>::empty());
                    assert(pv == new_project(name@, type_label(form.project_type), trim_seq(form.main_path@), today@));
                }
                self.projects.push(project);
                proof {
                    assert(projects_view(self.projects@) =~= projects_view(old(self).projects@).push(
                        new_project(name@, type_label(form.project_type), trim_seq(form.main_path@), today@),
                    ));
                }
                Ok(project_message_text(name.as_str(), "' created."))
            },
            ModalMode::Edit { original_name } => {
                match self.find(original_name.as_str()) {
                    None => Err(concat3(
                        "Project '",
                        original_name.as_str(),
                        "' not found for edit.",
                    )),
                    Some(k) => {
                        proof {
                            lemma_index_named(self@, original_name@);
                            lemma_first_unique(self@, original_name@, k as int, index_named(self@, original_name@));
                        }
                        self.projects[k].name = name.clone();
                        self.projects[k].project_type = type_text.to_string();
                        self.projects[k].main_path = main_path;
                        self.projects[k].edited_on = today.to_string();
                        proof {
                            let b = projects_view(old(self).projects@);
                            assert(projects_view(self.projects@) =~= b.update(
                                k as int,
                                edited_project(b[k as int], name@, type_label(form.project_type), trim_seq(form.main_path@), today@),
                            ));
                        }
                        Ok(project_message_text(name.as_str(), "' updated."))
                    },
                }
            },
        }
    }
}

/// A status change keeps the project where it was, under its name, and the
/// last change decides: moving a project to the bin (or the archive) and
/// then back leaves it exactly as moving it back alone would.
pub proof fn status_changes_compose(
    ps: Seq<ProjectView>,
    name: Seq<char>,
    first: Seq<char>,
    second: Seq<char>,
    d1: Seq<char>,
    d2: Seq<char>,
)
    requires
        has_named(ps, name),
    ensures
        ({
            let i = index_named(ps, name);
            let mid = ps.update(i, restated(ps[i], first, d1));
            &&& has_named(mid, name)
            &&& index_named(mid, name) == i
            &&& mid.update(i, restated(mid[i], second, d2)) == ps.update(i, restated(ps[i], second, d2))
        }),
{
    lemma_index_named(ps, name);
    let i = index_named(ps, name);
    let mid = ps.update(i, restated(ps[i], first, d1));
    assert(first_named(mid, name, i));
    lemma_index_named(mid, name);
    lemma_first_unique(mid, name, i, index_named(mid, name));
    assert(mid.update(i, restated(mid[i], second, d2)) =~= ps.update(i, restated(ps[i], second, d2)));
}

/// After a project is deleted for good, no project has its name, and the
/// other projects keep their order.
pub proof fn deleted_name_is_gone(ps: Seq<ProjectView>, name: Seq<char>)
    ensures
        !has_named(without_name(ps, name), name),
        without_name(ps, name) == ps.filter(not_called(name)),
{
    let f = without_name(ps, name);
    if has_named(f, name) {
        let i = choose|i: int| 0 <= i < f.len() && f[i].name == name;
        ps.lemma_filter_pred(not_called(name), i);
    }
}

/// After the bin is emptied no project is in the bin.
pub proof fn emptied_bin_is_empty(ps: Seq<ProjectView>)
    ensures
        forall|i: int| 0 <= i < not_in_bin(ps).len() ==> (#[trigger] not_in_bin(ps)[i]).status != deleted(),
{
    assert forall|i: int| 0 <= i < not_in_bin(ps).len() implies (#[trigger] not_in_bin(ps)[i]).status
        != deleted() by {
        ps.lemma_filter_pred(outside_bin(), i);
    }
}

/// Emptying the bin a second time deletes nothing more.
pub proof fn emptying_bin_again_changes_nothing(ps: Seq<ProjectView>)
    ensures
        not_in_bin(not_in_bin(ps)) == not_in_bin(ps),
{
    emptied_bin_is_empty(ps);
    let once = not_in_bin(ps);
    assert forall|i: int| 0 <= i < once.len() implies #[trigger] (outside_bin())(once[i]) by {
        assert(once[i].status != deleted());
    }
    lemma_filter_all(once, outside_bin());
}

/// A project created from the form gets a name that no other project has,
/// ignoring ASCII case, and is added at the end.
pub proof fn created_name_is_unique(
    before: Seq<ProjectView>,
    after: Seq<ProjectView>,
    form_name: Seq<char>,
    form_path: Seq<char>,
    form_type: Seq<char>,
    today: Seq<char>,
    message: Seq<char>,
)
    requires
        create_outcome(before, after, form_name, form_path, form_type, None, today, Ok(message)),
    ensures
        after.len() == before.len() + 1,
        after.last().name == trim_seq(form_name),
        forall|i: int|
            0 <= i < before.len() ==> ascii_lower_seq(#[trigger] after[i].name) != ascii_lower_seq(
                after.last().name,
            ),
{
    let name = trim_seq(form_name);
    assert forall|i: int| 0 <= i < before.len() implies ascii_lower_seq(
        #[trigger] after[i].name,
    ) != ascii_lower_seq(after.last().name) by {
        assert(after[i] == before[i]);
        if ascii_lower_seq(before[i].name) == ascii_lower_seq(name) {
            assert(name_taken(before, name, None));
        }
    }
}

/// No two projects have names that are equal ignoring ASCII case.
pub open spec fn names_distinct(ps: Seq<ProjectView>) -> bool {
    forall|i: int, j: int|
        0 <= i < j < ps.len() ==> ascii_lower_seq(#[trigger] ps[i].name) != ascii_lower_seq(
            #[trigger] ps[j].name,
        )
}

/// Creating or editing a project keeps the names distinct ignoring ASCII
/// case, whatever the outcome: an edit may change only the case of the
/// edited project's own name.
pub proof fn create_keeps_names_distinct(
    before: Seq<ProjectView>,
    after: Seq<ProjectView>,
    form_name: Seq<char>,
    form_path: Seq<char>,
    form_type: Seq<char>,
    editing: Option<Seq<char>>,
    today: Seq<char>,
    r: Result<Seq<char>, Seq<char>>,
)
    requires
        names_distinct(before),
        create_outcome(before, after, form_name, form_path, form_type, editing, today, r),
    ensures
        names_distinct(after),
{
    let name = trim_seq(form_name);
    if after != before {
        assert(!name_taken(before, name, editing));
        match editing {
            None => {
                assert forall|i: int, j: int| 0 <= i < j < after.len() implies ascii_lower_seq(
                    #[trigger] after[i].name,
                ) != ascii_lower_seq(#[trigger] after[j].name) by {
                    assert(after[i] == before[i]);
                    if j < before.len() {
                        assert(after[j] == before[j]);
                    } else if ascii_lower_seq(before[i].name) == ascii_lower_seq(name) {
                        assert(name_taken(before, name, editing));
                    }
                }
            },
            Some(orig) => {
                lemma_index_named(before, orig);
                let k = index_named(before, orig);
                assert forall|i: int|
                    0 <= i < before.len() && i != k implies ascii_lower_seq(#[trigger] before[i].name)
                    != ascii_lower_seq(name) by {
                    if before[i].name == orig {
                        if i < k {
                        } else {
                            assert(ascii_lower_seq(before[k].name) == ascii_lower_seq(before[i].name));
                        }
                    } else if ascii_lower_seq(before[i].name) == ascii_lower_seq(name) {
                        assert(name_taken(before, name, editing));
                    }
                }
                assert forall|i: int, j: int| 0 <= i < j < after.len() implies ascii_lower_seq(
                    #[trigger] after[i].name,
                ) != ascii_lower_seq(#[trigger] after[j].name) by {
                    if i == k {
                        assert(after[j] == before[j]);
                    } else if j == k {
                        assert(after[i] == before[i]);
                    } else {
                        assert(after[i] == before[i]);
                        assert(after[j] == before[j]);
                    }
                }
            },
        }
    }
}

/// A successful edit changes only the edited project's name, type, path
/// and edit date: the project stays where it was and keeps its status,
/// builds, star, extra file, stream type and creation date, and every other
/// project is untouched.
pub proof fn edit_changes_only_form_fields(
    before: Seq<ProjectView>,
    after: Seq<ProjectView>,
    form_name: Seq<char>,
    form_path: Seq<char>,
    form_type: Seq<char>,
    orig: Seq<char>,
    today: Seq<char>,
    message: Seq<char>,
)
    requires
        create_outcome(before, after, form_name, form_path, form_type, Some(orig), today, Ok(message)),
    ensures
        has_named(before, orig),
        after.len() == before.len(),
        ({
            let k = index_named(before, orig);
            &&& after[k].name == trim_seq(form_name)
            &&& after[k].project_type == form_type
            &&& after[k].main_path == trim_seq(form_path)
            &&& after[k].edited_on == today
            &&& after[k].status == before[k].status
            &&& after[k].builds == before[k].builds
            &&& after[k].added_file == before[k].added_file
            &&& after[k].stream_type == before[k].stream_type
            &&& after[k].star == before[k].star
            &&& after[k].created_on == before[k].created_on
            &&& forall|j: int| 0 <= j < before.len() && j != k ==> #[trigger] after[j] == before[j]
        }),
{
    lemma_index_named(before, orig);
}

/// Deleting projects in bulk keeps, in their order, exactly the projects
/// whose names are not among the given names, whatever their status.
pub proof fn bulk_delete_keeps_the_others(ps: Seq<ProjectView>, names: Seq<Seq<char>>)
    ensures
        without_names(ps, names) == ps.filter(|p: ProjectView| !names.contains(p.name)),
        forall|i: int|
            0 <= i < ps.len() && !names.contains(ps[i].name) ==> without_names(ps, names).contains(
                #[trigger] ps[i],
            ),
        forall|j: int|
            0 <= j < without_names(ps, names).len() ==> !names.contains(
                (#[trigger] without_names(ps, names)[j]).name,
            ),
{
    let keep = |p: ProjectView| !names.contains(p.name);
    assert(not_one_of(names) =~= keep);
    assert forall|i: int|
        0 <= i < ps.len() && !names.contains(ps[i].name) implies without_names(ps, names).contains(
            #[trigger] ps[i],
        ) by {
        ps.lemma_filter_contains(not_one_of(names), i);
    }
    assert forall|j: int| 0 <= j < without_names(ps, names).len() implies !names.contains(
        (#[trigger] without_names(ps, names)[j]).name,
    ) by {
        ps.lemma_filter_pred(not_one_of(names), j);
    }
}

/// Archiving, unarchiving, binning and restoring give the project the
/// status `archived`, `active`, `deleted` or `active` and today's edit date,
/// and change nothing else of it.
pub proof fn status_change_fields(p: ProjectView, status: Seq<char>, today: Seq<char>)
    ensures
        active() == "active"@,
        archived() == "archived"@,
        deleted() == "deleted"@,
        restated(p, status, today).status == status,
        restated(p, status, today).edited_on == today,
        restated(p, status, today).name == p.name,
        restated(p, status, today).project_type == p.project_type,
        restated(p, status, today).main_path == p.main_path,
        restated(p, status, today).builds == p.builds,
        restated(p, status, today).added_file == p.added_file,
        restated(p, status, today).stream_type == p.stream_type,
        restated(p, status, today).star == p.star,
        restated(p, status, today).created_on == p.created_on,
{
}

/// A bulk status change gives every project called one of the names the
/// new status and today's edit date, keeps its other fields, and leaves
/// every other project as it was, in place.
pub proof fn bulk_change_fields(
    before: Seq<ProjectView>,
    after: Seq<ProjectView>,
    names: Seq<Seq<char>>,
    status: Seq<char>,
    today: Seq<char>,
)
    requires
        bulk_restated(before, after, names, status, today),
    ensures
        after.len() == before.len(),
        forall|i: int|
            0 <= i < before.len() && !names.contains(before[i].name) ==> #[trigger] after[i]
                == before[i],
        forall|i: int|
            0 <= i < before.len() && names.contains(before[i].name) ==> {
                &&& (#[trigger] after[i]).status == status
                &&& after[i].edited_on == today
                &&& after[i].name == before[i].name
                &&& after[i].project_type == before[i].project_type
                &&& after[i].main_path == before[i].main_path
                &&& after[i].builds == before[i].builds
                &&& after[i].added_file == before[i].added_file
                &&& after[i].stream_type == before[i].stream_type
                &&& after[i].star == before[i].star
                &&& after[i].created_on == before[i].created_on
            },
{
}

/// Deleting one project by name, and emptying the bin, keep the other
/// projects in their order: exactly those not called that name, and
/// exactly those whose status is not `deleted`.
pub proof fn deletes_keep_the_others(ps: Seq<ProjectView>, name: Seq<char>)
    ensures
        without_name(ps, name) == ps.filter(|p: ProjectView| p.name != name),
        not_in_bin(ps) == ps.filter(|p: ProjectView| p.status != "deleted"@),
{
    let keep_named = |p: ProjectView| p.name != name;
    let keep_status = |p: ProjectView| p.status != "deleted"@;
    assert(not_called(name) =~= keep_named);
    assert(outside_bin() =~= keep_status);
}

/// A successful create appends one project and changes no other: it has
/// the trimmed name and path, the chosen type, no builds, extra file or
/// star, the stream type `localhost-token`, status `active`, and today as
/// its creation and edit date. Creating with an empty trimmed name or path
/// fails and changes nothing.
pub proof fn create_appends_new_project(
    before: Seq<ProjectView>,
    after: Seq<ProjectView>,
    form_name: Seq<char>,
    form_path: Seq<char>,
    form_type: Seq<char>,
    today: Seq<char>,
    r: Result<Seq<char>, Seq<char>>,
)
    requires
        create_outcome(before, after, form_name, form_path, form_type, None, today, r),
    ensures
        trim_seq(form_name).len() == 0 || trim_seq(form_path).len() == 0 ==> r is Err && after
            == before,
        r is Ok ==> {
            let p = after.last();
            &&& after.len() == before.len() + 1
            &&& forall|j: int| 0 <= j < before.len() ==> #[trigger] after[j] == before[j]
            &&& p.name == trim_seq(form_name)
            &&& p.main_path == trim_seq(form_path)
            &&& p.project_type == form_type
            &&& p.builds.len() == 0
            &&& p.added_file is None
            &&& p.star is None
            &&& p.stream_type == Some("localhost-token"@)
            &&& p.status == "active"@
            &&& p.created_on == today
            &&& p.edited_on == today
        },
{
}

proof fn lemma_view_push(v: Seq<ProjectRecord>, x: ProjectRecord)
    ensures
        projects_view(v.push(x)) == projects_view(v).push(x@),
{
    assert(projects_view(v.push(x)) =~= projects_view(v).push(x@));
}

proof fn lemma_view_prefix(v: Seq<ProjectRecord>, i: int)
    requires
        0 <= i < v.len(),
    ensures
        projects_view(v.subrange(0, i + 1)) == projects_view(v.subrange(0, i)).push(v[i]@),
        projects_view(v)[i] == v[i]@,
{
    assert(v.subrange(0, i + 1) =~= v.subrange(0, i).push(v[i]));
    lemma_view_push(v.subrange(0, i), v[i]);
}

proof fn lemma_filter_all(s: Seq<ProjectView>, pred: spec_fn(ProjectView) -> bool)
    requires
        forall|i: int| 0 <= i < s.len() ==> pred(#[trigger] s[i]),
    ensures
        s.filter(pred) == s,
    decreases s.len(),
{
    reveal(Seq::filter);
    if s.len() > 0 {
        lemma_filter_all(s.drop_last(), pred);
        assert(s.drop_last().push(s.last()) =~= s);
    }
}

/// Two first indices of the same name are the same index.
pub proof fn lemma_first_unique(ps: Seq<ProjectView>, name: Seq<char>, i: int, j: int)
    requires
        first_named(ps, name, i),
        first_named(ps, name, j),
    ensures
        i == j,
{
    if i < j {
        assert(ps[i].name == name);
    } else if j < i {
        assert(ps[j].name == name);
    }
}

} // verus!
