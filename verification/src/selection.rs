//! The select mode of the archive and bin pages: whether it is on, and
//! which projects are ticked, by name.
use vstd::prelude::*;

verus! {

/// The names held by a list of texts.
pub open spec fn names_of(v: Seq<String>) -> Set<Seq<char>> {
    Set::new(|x: Seq<char>| exists|j: int| 0 <= j < v.len() && v[j]@ == x)
}

/// Whether select mode is on, and the ticked project names.
pub struct Selection {
    pub active: bool,
    pub names: Vec<String>,
}

pub struct SelectionView {
    pub active: bool,
    pub names: Set<Seq<char>>,
}

impl View for Selection {
    type V = SelectionView;

    open spec fn view(&self) -> SelectionView {
        SelectionView { active: self.active, names: names_of(self.names@) }
    }
}

fn copy_texts(v: &Vec<String>) -> (r: Vec<String>)
    ensures
        r@.len() == v@.len(),
        forall|j: int| 0 <= j < v@.len() ==> #[trigger] r@[j]@ == v@[j]@,
        names_of(r@) == names_of(v@),
{
    let mut r: Vec<String> = Vec::new();
    let mut i: usize = 0;
    while i < v.len()
        invariant
            i <= v.len(),
            r@.len() == i,
            forall|j: int| 0 <= j < i ==> #[trigger] r@[j]@ == v@[j]@,
        decreases v.len() - i,
    {
        r.push(v[i].clone());
        i = i + 1;
    }
    assert(names_of(r@) =~= names_of(v@)) by {
        assert forall|x: Seq<char>| names_of(v@).contains(x) implies names_of(r@).contains(x) by {
            let j = choose|j: int| 0 <= j < v@.len() && v@[j]@ == x;
            assert(r@[j]@ == x);
        }
    }
    r
}

impl Selection {
    /// Select mode off, nothing ticked.
    pub fn new() -> (r: Self)
        ensures
            !r@.active,
            r@.names == Set::<Seq<char>>::empty(),
    {
        let r = Selection { active: false, names: Vec::new() };
        assert(r@.names =~= Set::<Seq<char>>::empty());
        r
    }

    pub fn is_active(&self) -> (r: bool)
        ensures
            r == self@.active,
    {
        self.active
    }

    /// Turns select mode on or off; turning it off unticks everything.
    pub fn toggle(&mut self)
        ensures
            final(self)@.active == !old(self)@.active,
            final(self)@.names == if final(self)@.active {
                old(self)@.names
            } else {
                Set::<Seq<char>>::empty()
            },
    {
        self.active = !self.active;
        if !self.active {
            self.names = Vec::new();
            assert(names_of(self.names@) =~= Set::<Seq<char>>::empty());
        }
    }

    /// Whether the project called `name` is ticked.
    pub fn contains(&self, name: &str) -> (r: bool)
        ensures
            r == self@.names.contains(name@),
    {
        let mut i: usize = 0;
        while i < self.names.len()
            invariant
                i <= self.names.len(),
                forall|j: int| 0 <= j < i ==> self.names@[j]@ != name@,
            decreases self.names.len() - i,
        {
            if crate::text::str_equals(self.names[i].as_str(), name) {
                assert(self.names@[i as int]@ == name@);
                return true;
            }
            i = i + 1;
        }
        false
    }

    /// Ticks or unticks the project called `name`.
    pub fn set_checked(&mut self, name: &str, checked: bool)
        ensures
            final(self)@.active == old(self)@.active,
            final(self)@.names == if checked {
                old(self)@.names.insert(name@)
            } else {
                old(self)@.names.remove(name@)
            },
    {
        let ghost before = self.names@;
        if checked {
            if !self.contains(name) {
                self.names.push(name.to_string());
                assert(names_of(self.names@) =~= names_of(before).insert(name@)) by {
                    assert(self.names@[before.len() as int]@ == name@);
                    assert forall|x: Seq<char>| names_of(before).contains(x) implies names_of(
                        self.names@,
                    ).contains(x) by {
                        let j = choose|j: int| 0 <= j < before.len() && before[j]@ == x;
                        assert(self.names@[j] == before[j]);
                    }
                    assert forall|x: Seq<char>| names_of(self.names@).contains(x) implies names_of(
                        before,
                    ).insert(name@).contains(x) by {
                        let j = choose|j: int| 0 <= j < self.names@.len() && self.names@[j]@ == x;
                        if j < before.len() {
                            assert(before[j] == self.names@[j]);
                        }
                    }
                }
            } else {
                assert(names_of(before) =~= names_of(before).insert(name@));
            }
        } else {
            let mut kept: Vec<String> = Vec::new();
            let mut i: usize = 0;
            while i < self.names.len()
                invariant
                    i <= self.names.len(),
                    self.names@ == before,
                    forall|j: int| 0 <= j < kept@.len() ==> #[trigger] kept@[j]@ != name@,
                    forall|x: Seq<char>|
                        names_of(kept@).contains(x) <==> (x != name@ && exists|j: int|
                            0 <= j < i && #[trigger] before[j]@ == x),
                decreases self.names.len() - i,
            {
                if !crate::text::str_equals(self.names[i].as_str(), name) {
                    let ghost old_kept = kept@;
                    kept.push(self.names[i].clone());
                    assert forall|x: Seq<char>|
                        names_of(kept@).contains(x) <==> (x != name@ && exists|j: int|
                            0 <= j < i + 1 && #[trigger] before[j]@ == x) by {
                        if names_of(kept@).contains(x) {
                            let j = choose|j: int| 0 <= j < kept@.len() && kept@[j]@ == x;
                            if j < old_kept.len() {
                                assert(old_kept[j] == kept@[j]);
                                assert(names_of(old_kept).contains(x));
                            } else {
                                assert(before[i as int]@ == x);
                            }
                        }
                        if x != name@ && exists|j: int| 0 <= j < i + 1 && #[trigger] before[j]@ == x {
                            let j = choose|j: int| 0 <= j < i + 1 && #[trigger] before[j]@ == x;
                            if j < i {
                                assert(names_of(old_kept).contains(x));
                                let k = choose|k: int| 0 <= k < old_kept.len() && old_kept[k]@ == x;
                                assert(kept@[k] == old_kept[k]);
                            } else {
                                assert(kept@[old_kept.len() as int]@ == x);
                            }
                        }
                    }
                } else {
                    assert forall|x: Seq<char>|
                        names_of(kept@).contains(x) <==> (x != name@ && exists|j: int|
                            0 <= j < i + 1 && #[trigger] before[j]@ == x) by {
                        if x != name@ && exists|j: int| 0 <= j < i + 1 && #[trigger] before[j]@ == x {
                            let j = choose|j: int| 0 <= j < i + 1 && #[trigger] before[j]@ == x;
                            assert(j < i);
                        }
                    }
                }
                i = i + 1;
            }
            assert(names_of(kept@) =~= names_of(before).remove(name@)) by {
                assert forall|x: Seq<char>| names_of(before).remove(name@).contains(x) implies names_of(
                    kept@,
                ).contains(x) by {
                    let j = choose|j: int| 0 <= j < before.len() && before[j]@ == x;
                    assert(before[j]@ == x);
                }
                assert forall|x: Seq<char>| names_of(kept@).contains(x) implies names_of(
                    before,
                ).remove(name@).contains(x) by {
                    let j = choose|j: int| 0 <= j < before.len() && #[trigger] before[j]@ == x;
                }
            }
            self.names = kept;
        }
    }

    /// Ticks exactly the projects called one of `names`.
    pub fn select_all(&mut self, names: &Vec<String>)
        ensures
            final(self)@.active == old(self)@.active,
            final(self)@.names == names_of(names@),
    {
        self.names = copy_texts(names);
    }

    /// Unticks every project.
    pub fn clear(&mut self)
        ensures
            final(self)@.active == old(self)@.active,
            final(self)@.names == Set::<Seq<char>>::empty(),
    {
        self.names = Vec::new();
        assert(names_of(self.names@) =~= Set::<Seq<char>>::empty());
    }

    /// The ticked names, as a list.
    pub fn to_vec(&self) -> (r: Vec<String>)
        ensures
            names_of(r@) == self@.names,
    {
        copy_texts(&self.names)
    }
}

} // verus!
