//! Bookkeeping of the particle editor: the buffered name of the selected
//! particle, the registry of editor entries by particle name and how it is
//! kept in step with the particle types, and the fields that change with a
//! particle's material state.
use vstd::prelude::*;

use crate::categories::category_before;
use crate::text::{decimal, lemma_parse_decimal, owned, parse_unsigned, parse_unsigned_upto, push_decimal, str_eq, views};

verus! {

/// An entity of the world, by its bits.
pub type EntityBits = u64;

/// The particle selected for editing.
#[derive(PartialEq, Eq, Structural, Clone, Copy, Debug)]
pub struct SelectedParticle(pub EntityBits);

/// The editor entry currently shown.
pub struct CurrentEditorSelection {
    pub selected_entity: Option<EntityBits>,
}

/// Buffered name of the selected particle: the name field edits this
/// buffer, which is committed when the particle is saved.
pub struct NameDraft {
    pub entity: Option<EntityBits>,
    pub name: String,
}

impl NameDraft {
    /// No particle, empty name.
    pub fn new() -> (res: Self)
        ensures
            res.entity is None,
            res.name@ == Seq::<char>::empty(),
    {
        NameDraft { entity: None, name: String::new() }
    }
}

/// Whether the draft must be refreshed, given the selection and whether the
/// selected entity still is a particle type: when nothing is selected and
/// the draft names an entity; when the draft belongs to another entity; or
/// when the selected entity vanished and the draft still holds something.
pub open spec fn needs_refresh(
    selected: Option<EntityBits>,
    draft_entity: Option<EntityBits>,
    draft_name: Seq<char>,
    selected_exists: bool,
) -> bool {
    match selected {
        None => draft_entity is Some,
        Some(s) => draft_entity != Some(s) || (!selected_exists && (draft_entity is Some
            || draft_name.len() > 0)),
    }
}

/// Decides whether the name draft must be refreshed this frame.
pub fn condition_should_refresh_name_draft(
    selected: Option<SelectedParticle>,
    draft: &NameDraft,
    selected_exists: bool,
) -> (res: bool)
    ensures
        res == needs_refresh(
            match selected {
                Some(s) => Some(s.0),
                None => None,
            },
            draft.entity,
            draft.name@,
            selected_exists,
        ),
{
    match selected {
        None => draft.entity.is_some(),
        Some(s) => {
            let same = match draft.entity {
                Some(e) => e == s.0,
                None => false,
            };
            if !same {
                return true;
            }
            !selected_exists && (draft.entity.is_some() || !draft.name.as_str().is_empty())
        },
    }
}

/// Refreshes the draft from the selection: it takes the selected
/// particle's name (`selected_name`, `None` when the selected entity is no
/// longer a particle type), and is cleared when there is nothing to show.
pub fn refresh_name_draft(
    draft: &mut NameDraft,
    selected: Option<SelectedParticle>,
    selected_name: Option<String>,
)
    ensures
        match (selected, selected_name) {
            (Some(s), Some(n)) => final(draft).entity == Some(s.0) && final(draft).name@ == n@,
            _ => final(draft).entity is None && final(draft).name@ == Seq::<char>::empty(),
        },
{
    match (selected, selected_name) {
        (Some(s), Some(n)) => {
            draft.entity = Some(s.0);
            draft.name = n;
        },
        _ => {
            draft.entity = None;
            draft.name = String::new();
        },
    }
}

/// Once refreshed from a selection that is absent or still a particle type,
/// the draft needs no further refresh. (A selected entity that vanished is
/// the exception: the draft then refreshes again on every frame.)
pub proof fn law_refresh_settles_draft(selected: Option<EntityBits>, name: Seq<char>)
    ensures
        needs_refresh(selected, selected, name, true) == false,
        needs_refresh(None, None, Seq::empty(), false) == false,
{
}

/// The registry of editor entries by particle name: a name appears once.
pub struct ParticleEditorRegistry {
    entries: Vec<(String, EntityBits)>,
}

/// The view of registry entries.
pub open spec fn entries_view(s: Seq<(String, EntityBits)>) -> Seq<(Seq<char>, EntityBits)> {
    s.map_values(|e: (String, EntityBits)| (e.0@, e.1))
}

/// The names of the registry entries.
pub open spec fn entry_names(s: Seq<(Seq<char>, EntityBits)>) -> Seq<Seq<char>> {
    s.map_values(|e: (Seq<char>, EntityBits)| e.0)
}

/// The entity registered under `name`.
pub open spec fn lookup(s: Seq<(Seq<char>, EntityBits)>, name: Seq<char>) -> Option<EntityBits>
    decreases s.len(),
{
    if s.len() == 0 {
        None
    } else if s.last().0 == name {
        Some(s.last().1)
    } else {
        lookup(s.drop_last(), name)
    }
}

/// No name is registered twice.
pub open spec fn names_distinct(s: Seq<(Seq<char>, EntityBits)>) -> bool {
    forall|i: int, j: int| 0 <= i < j < s.len() ==> s[i].0 != s[j].0
}

proof fn lemma_lookup_index(s: Seq<(Seq<char>, EntityBits)>, name: Seq<char>, i: int)
    requires
        names_distinct(s),
        0 <= i < s.len(),
        s[i].0 == name,
    ensures
        lookup(s, name) == Some(s[i].1),
    decreases s.len(),
{
    if i < s.len() - 1 {
        lemma_lookup_index(s.drop_last(), name, i);
    }
}

proof fn lemma_lookup_absent(s: Seq<(Seq<char>, EntityBits)>, name: Seq<char>)
    requires
        forall|k: int| 0 <= k < s.len() ==> s[k].0 != name,
    ensures
        lookup(s, name) is None,
    decreases s.len(),
{
    if s.len() > 0 {
        lemma_lookup_absent(s.drop_last(), name);
    }
}

proof fn lemma_lookup_found(s: Seq<(Seq<char>, EntityBits)>, name: Seq<char>)
    requires
        lookup(s, name) is Some,
    ensures
        exists|k: int| 0 <= k < s.len() && s[k].0 == name && lookup(s, name) == Some(s[k].1),
    decreases s.len(),
{
    if s.last().0 != name {
        lemma_lookup_found(s.drop_last(), name);
        let k = choose|k: int|
            0 <= k < s.drop_last().len() && s.drop_last()[k].0 == name && lookup(
                s.drop_last(),
                name,
            ) == Some(s.drop_last()[k].1);
        assert(s[k] == s.drop_last()[k]);
    }
}

/// The entries after registering `entity` under `name`: an entry of that
/// name gets the new entity, otherwise one is appended.
pub open spec fn registered(s: Seq<(Seq<char>, EntityBits)>, name: Seq<char>, entity: EntityBits) -> Seq<
    (Seq<char>, EntityBits),
> {
    if exists|i: int| 0 <= i < s.len() && s[i].0 == name {
        let i = choose|i: int| 0 <= i < s.len() && s[i].0 == name;
        s.update(i, (name, entity))
    } else {
        s.push((name, entity))
    }
}

/// The entries without the one of `name`.
pub open spec fn unregistered(s: Seq<(Seq<char>, EntityBits)>, name: Seq<char>) -> Seq<
    (Seq<char>, EntityBits),
> {
    s.filter(|e: (Seq<char>, EntityBits)| e.0 != name)
}

impl ParticleEditorRegistry {
    /// The registered (name, entity) pairs.
    pub closed spec fn spec_entries(&self) -> Seq<(Seq<char>, EntityBits)> {
        entries_view(self.entries@)
    }

    #[verifier::type_invariant]
    closed spec fn well_formed(&self) -> bool {
        names_distinct(entries_view(self.entries@))
    }

    /// An empty registry.
    pub fn new() -> (res: Self)
        ensures
            res.spec_entries() == Seq::<(Seq<char>, EntityBits)>::empty(),
    {
        let res = ParticleEditorRegistry { entries: Vec::new() };
        assert(entries_view(res.entries@) =~= Seq::<(Seq<char>, EntityBits)>::empty());
        res
    }

    fn index_of(&self, name: &str) -> (res: Option<usize>)
        ensures
            match res {
                Some(i) => i < self.spec_entries().len() && self.spec_entries()[i as int].0
                    == name@,
                None => forall|k: int|
                    0 <= k < self.spec_entries().len() ==> self.spec_entries()[k].0 != name@,
            },
    {
        let mut i: usize = 0;
        while i < self.entries.len()
            invariant
                i <= self.entries@.len(),
                forall|k: int| 0 <= k < i ==> entries_view(self.entries@)[k].0 != name@,
            decreases self.entries@.len() - i,
        {
            assert(entries_view(self.entries@)[i as int].0 == self.entries@[i as int].0@);
            if str_eq(self.entries[i].0.as_str(), name) {
                return Some(i);
            }
            i += 1;
        }
        None
    }

    /// Whether an entry is registered under `name`.
    pub fn contains(&self, name: &str) -> (res: bool)
        ensures
            res == (lookup(self.spec_entries(), name@) is Some),
    {
        proof {
            use_type_invariant(self);
        }
        match self.index_of(name) {
            Some(i) => {
                proof {
                    lemma_lookup_index(self.spec_entries(), name@, i as int);
                }
                true
            },
            None => {
                proof {
                    lemma_lookup_absent(self.spec_entries(), name@);
                }
                false
            },
        }
    }

    /// The entity registered under `name`.
    pub fn get(&self, name: &str) -> (res: Option<EntityBits>)
        ensures
            res == lookup(self.spec_entries(), name@),
    {
        proof {
            use_type_invariant(self);
        }
        match self.index_of(name) {
            Some(i) => {
                proof {
                    lemma_lookup_index(self.spec_entries(), name@, i as int);
                }
                Some(self.entries[i].1)
            },
            None => {
                proof {
                    lemma_lookup_absent(self.spec_entries(), name@);
                }
                None
            },
        }
    }

    /// Registers `entity` under `name`, returning the entity it replaces.
    pub fn insert(&mut self, name: String, entity: EntityBits) -> (res: Option<EntityBits>)
        ensures
            res == lookup(old(self).spec_entries(), name@),
            final(self).spec_entries() == registered(old(self).spec_entries(), name@, entity),
            forall|m: Seq<char>| #[trigger] lookup(final(self).spec_entries(), m) == (if m == name@ {
                Some(entity)
            } else {
                lookup(old(self).spec_entries(), m)
            }),
    {
        proof {
            use_type_invariant(&*self);
        }
        let ghost s = self.spec_entries();
        proof {
            assert forall|m: Seq<char>| #[trigger] lookup(registered(s, name@, entity), m) == (if m == name@ {
                Some(entity)
            } else {
                lookup(s, m)
            }) by {
                if m == name@ {
                    law_lookup_after_register(s, name@, entity, name@ + seq!['a']);
                } else {
                    law_lookup_after_register(s, name@, entity, m);
                }
            }
        }
        match self.index_of(name.as_str()) {
            Some(i) => {
                proof {
                    lemma_lookup_index(s, name@, i as int);
                    let j = choose|j: int| 0 <= j < s.len() && s[j].0 == name@;
                    if j != i {
                        assert(s[j].0 == s[i as int].0);
                    }
                }
                let previous = self.entries[i].1;
                let mut entries: Vec<(String, EntityBits)> = Vec::new();
                std::mem::swap(&mut entries, &mut self.entries);
                entries.set(i, (name, entity));
                proof {
                    assert(entries_view(entries@) =~= s.update(i as int, (name@, entity)));
                    assert forall|a: int, b: int|
                        0 <= a < b < entries@.len() implies entries_view(entries@)[a].0
                        != entries_view(entries@)[b].0 by {
                        if a != i && b != i {
                            assert(entries_view(entries@)[a] == s[a]);
                            assert(entries_view(entries@)[b] == s[b]);
                        } else if a == i {
                            assert(entries_view(entries@)[b] == s[b]);
                        } else {
                            assert(entries_view(entries@)[a] == s[a]);
                        }
                    }
                }
                self.entries = entries;
                Some(previous)
            },
            None => {
                proof {
                    lemma_lookup_absent(s, name@);
                }
                let mut entries: Vec<(String, EntityBits)> = Vec::new();
                std::mem::swap(&mut entries, &mut self.entries);
                entries.push((name, entity));
                proof {
                    assert(entries_view(entries@) =~= s.push((name@, entity)));
                    assert forall|a: int, b: int|
                        0 <= a < b < entries@.len() implies entries_view(entries@)[a].0
                        != entries_view(entries@)[b].0 by {
                        if b == s.len() {
                            assert(entries_view(entries@)[a] == s[a]);
                        } else {
                            assert(entries_view(entries@)[a] == s[a]);
                            assert(entries_view(entries@)[b] == s[b]);
                        }
                    }
                }
                self.entries = entries;
                None
            },
        }
    }

    /// Removes the entry of `name`, returning its entity.
    pub fn remove(&mut self, name: &str) -> (res: Option<EntityBits>)
        ensures
            res == lookup(old(self).spec_entries(), name@),
            final(self).spec_entries() == unregistered(old(self).spec_entries(), name@),
            forall|m: Seq<char>| #[trigger] lookup(final(self).spec_entries(), m) == (if m == name@ {
                None
            } else {
                lookup(old(self).spec_entries(), m)
            }),
    {
        proof {
            use_type_invariant(&*self);
        }
        let ghost s = self.spec_entries();
        proof {
            assert forall|m: Seq<char>| #[trigger] lookup(unregistered(s, name@), m) == (if m == name@ {
                None
            } else {
                lookup(s, m)
            }) by {
                if m == name@ {
                    law_lookup_after_unregister(s, name@, name@ + seq!['a']);
                } else {
                    law_lookup_after_unregister(s, name@, m);
                }
            }
        }
        match self.index_of(name) {
            Some(i) => {
                proof {
                    lemma_lookup_index(s, name@, i as int);
                }
                let mut entries: Vec<(String, EntityBits)> = Vec::new();
                std::mem::swap(&mut entries, &mut self.entries);
                let removed = entries.remove(i);
                proof {
                    assert(entries_view(entries@) =~= s.remove(i as int));
                    lemma_filter_removes_unique(s, name@, i as int);
                    assert forall|a: int, b: int|
                        0 <= a < b < entries@.len() implies entries_view(entries@)[a].0
                        != entries_view(entries@)[b].0 by {
                        let a0 = if a < i {
                            a
                        } else {
                            a + 1
                        };
                        let b0 = if b < i {
                            b
                        } else {
                            b + 1
                        };
                        assert(entries_view(entries@)[a] == s[a0]);
                        assert(entries_view(entries@)[b] == s[b0]);
                    }
                }
                self.entries = entries;
                Some(removed.1)
            },
            None => {
                proof {
                    lemma_lookup_absent(s, name@);
                    lemma_filter_keeps_all(s, name@);
                }
                None
            },
        }
    }

    /// The registered (name, entity) pairs.
    pub fn iter(&self) -> (res: Vec<(String, EntityBits)>)
        ensures
            entries_view(res@) == self.spec_entries(),
    {
        let mut res: Vec<(String, EntityBits)> = Vec::new();
        let mut i: usize = 0;
        while i < self.entries.len()
            invariant
                i <= self.entries@.len(),
                entries_view(res@) == entries_view(self.entries@).take(i as int),
            decreases self.entries@.len() - i,
        {
            let name = owned(self.entries[i].0.as_str());
            let ghost prev = res@;
            res.push((name, self.entries[i].1));
            proof {
                assert(res@ == prev.push((name, self.entries@[i as int].1)));
                assert(entries_view(res@) =~= entries_view(prev).push((name@, self.entries@[i as int].1)));
                assert(entries_view(res@) =~= entries_view(self.entries@).take(i + 1));
            }
            i += 1;
        }
        assert(entries_view(self.entries@).take(self.entries@.len() as int) =~= entries_view(
            self.entries@,
        ));
        res
    }
}

proof fn lemma_filter_keeps_all(s: Seq<(Seq<char>, EntityBits)>, name: Seq<char>)
    requires
        forall|k: int| 0 <= k < s.len() ==> s[k].0 != name,
    ensures
        unregistered(s, name) == s,
    decreases s.len(),
{
    reveal_with_fuel(Seq::filter, 1);
    if s.len() > 0 {
        lemma_filter_keeps_all(s.drop_last(), name);
        assert(s.drop_last().push(s.last()) =~= s);
    } else {
        assert(unregistered(s, name) =~= s);
    }
}

proof fn lemma_filter_removes_unique(s: Seq<(Seq<char>, EntityBits)>, name: Seq<char>, i: int)
    requires
        names_distinct(s),
        0 <= i < s.len(),
        s[i].0 == name,
    ensures
        unregistered(s, name) == s.remove(i),
    decreases s.len(),
{
    reveal_with_fuel(Seq::filter, 1);
    let d = s.drop_last();
    if i == s.len() - 1 {
        assert forall|k: int| 0 <= k < d.len() implies d[k].0 != name by {
            assert(d[k] == s[k]);
        }
        lemma_filter_keeps_all(d, name);
        assert(s.remove(i) =~= d);
    } else {
        assert(names_distinct(d)) by {
            assert forall|a: int, b: int| 0 <= a < b < d.len() implies d[a].0 != d[b].0 by {
                assert(d[a] == s[a] && d[b] == s[b]);
            }
        }
        lemma_filter_removes_unique(d, name, i);
        assert(s.last().0 != name);
        assert(s.remove(i) =~= d.remove(i).push(s.last()));
    }
}

/// After registering `entity` under `name`, looking `name` up gives it and
/// every other name keeps its entity.
pub proof fn law_lookup_after_register(
    s: Seq<(Seq<char>, EntityBits)>,
    name: Seq<char>,
    entity: EntityBits,
    other: Seq<char>,
)
    requires
        names_distinct(s),
        other != name,
    ensures
        lookup(registered(s, name, entity), name) == Some(entity),
        lookup(registered(s, name, entity), other) == lookup(s, other),
        names_distinct(registered(s, name, entity)),
{
    let r = registered(s, name, entity);
    if exists|i: int| 0 <= i < s.len() && s[i].0 == name {
        let i = choose|i: int| 0 <= i < s.len() && s[i].0 == name;
        assert(names_distinct(r)) by {
            assert forall|a: int, b: int| 0 <= a < b < r.len() implies r[a].0 != r[b].0 by {
                if a != i && b != i {
                    assert(r[a] == s[a] && r[b] == s[b]);
                } else if a == i {
                    assert(r[b] == s[b]);
                } else {
                    assert(r[a] == s[a]);
                }
            }
        }
        lemma_lookup_index(r, name, i);
        if lookup(s, other) is Some {
            lemma_lookup_found(s, other);
            let k = choose|k: int|
                0 <= k < s.len() && s[k].0 == other && lookup(s, other) == Some(s[k].1);
            assert(r[k] == s[k]);
            lemma_lookup_index(r, other, k);
        } else {
            assert forall|k: int| 0 <= k < r.len() implies r[k].0 != other by {
                if k != i {
                    assert(r[k] == s[k]);
                    if s[k].0 == other {
                        lemma_lookup_index(s, other, k);
                    }
                }
            }
            lemma_lookup_absent(r, other);
        }
    } else {
        assert(r == s.push((name, entity)));
        assert(r.drop_last() =~= s);
        assert(names_distinct(r)) by {
            assert forall|a: int, b: int| 0 <= a < b < r.len() implies r[a].0 != r[b].0 by {
                if b == s.len() {
                    assert(r[a] == s[a]);
                } else {
                    assert(r[a] == s[a] && r[b] == s[b]);
                }
            }
        }
    }
}

/// After removing `name`, it is no longer registered and every other name
/// keeps its entity.
pub proof fn law_lookup_after_unregister(
    s: Seq<(Seq<char>, EntityBits)>,
    name: Seq<char>,
    other: Seq<char>,
)
    requires
        names_distinct(s),
        other != name,
    ensures
        lookup(unregistered(s, name), name) is None,
        lookup(unregistered(s, name), other) == lookup(s, other),
{
    let r = unregistered(s, name);
    assert forall|k: int| 0 <= k < r.len() implies r[k].0 != name by {
        broadcast use vstd::seq_lib::group_filter_ensures;

    }
    lemma_lookup_absent(r, name);
    if exists|i: int| 0 <= i < s.len() && s[i].0 == name {
        let i = choose|i: int| 0 <= i < s.len() && s[i].0 == name;
        lemma_filter_removes_unique(s, name, i);
        if lookup(s, other) is Some {
            lemma_lookup_found(s, other);
            let k = choose|k: int|
                0 <= k < s.len() && s[k].0 == other && lookup(s, other) == Some(s[k].1);
            let k2 = if k < i {
                k
            } else {
                k - 1
            };
            assert(r[k2] == s[k]);
            assert(names_distinct(r)) by {
                assert forall|a: int, b: int| 0 <= a < b < r.len() implies r[a].0 != r[b].0 by {
                    let a0 = if a < i {
                        a
                    } else {
                        a + 1
                    };
                    let b0 = if b < i {
                        b
                    } else {
                        b + 1
                    };
                    assert(r[a] == s[a0] && r[b] == s[b0]);
                }
            }
            lemma_lookup_index(r, other, k2);
        } else {
            assert forall|k: int| 0 <= k < r.len() implies r[k].0 != other by {
                let k0 = if k < i {
                    k
                } else {
                    k + 1
                };
                assert(r[k] == s[k0]);
                if s[k0].0 == other {
                    lemma_lookup_index(s, other, k0);
                }
            }
            lemma_lookup_absent(r, other);
        }
    } else {
        lemma_filter_keeps_all(s, name);
    }
}

/// What bringing the editor registry in step with the particle types does:
/// the names to create editor entries for, in the order of the types, and
/// the registered names to drop.
pub struct RegistrySyncPlan {
    pub to_create: Vec<String>,
    pub to_remove: Vec<String>,
}

/// The particle type names to create editor entries for, in order: those
/// whose particle type the editor could read (`matched`, by position) and
/// that have no entry yet.
pub open spec fn names_to_create(
    names: Seq<Seq<char>>,
    matched: Seq<bool>,
    entries: Seq<(Seq<char>, EntityBits)>,
) -> Seq<Seq<char>>
    decreases names.len(),
{
    if names.len() == 0 {
        Seq::empty()
    } else {
        let rest = names_to_create(names.drop_last(), matched, entries);
        if matched[names.len() - 1] && lookup(entries, names.last()) is None {
            rest.push(names.last())
        } else {
            rest
        }
    }
}

/// Whether the `i`-th type name is read by the editor and has no entry.
pub open spec fn creates_at(
    names: Seq<Seq<char>>,
    matched: Seq<bool>,
    entries: Seq<(Seq<char>, EntityBits)>,
    i: int,
) -> bool {
    0 <= i < names.len() && matched[i] && lookup(entries, names[i]) is None
}

proof fn lemma_names_to_create_contains(
    names: Seq<Seq<char>>,
    matched: Seq<bool>,
    entries: Seq<(Seq<char>, EntityBits)>,
    n: Seq<char>,
)
    ensures
        names_to_create(names, matched, entries).contains(n) <==> exists|i: int|
            #[trigger] creates_at(names, matched, entries, i) && names[i] == n,
    decreases names.len(),
{
    if names.len() > 0 {
        let init = names.drop_last();
        let k = names.len() - 1;
        lemma_names_to_create_contains(init, matched, entries, n);
        let rest = names_to_create(init, matched, entries);
        if exists|i: int| #[trigger] creates_at(names, matched, entries, i) && names[i] == n {
            let i = choose|i: int| #[trigger] creates_at(names, matched, entries, i) && names[i] == n;
            if i < k {
                assert(creates_at(init, matched, entries, i) && init[i] == n);
                let w = choose|w: int| 0 <= w < rest.len() && rest[w] == n;
                if matched[k] && lookup(entries, names.last()) is None {
                    assert(rest.push(names.last())[w] == n);
                }
            } else {
                assert(names.last() == n);
                assert(rest.push(names.last())[rest.len() as int] == n);
            }
        }
        if names_to_create(names, matched, entries).contains(n) {
            let out = names_to_create(names, matched, entries);
            let w = choose|w: int| 0 <= w < out.len() && out[w] == n;
            if matched[k] && lookup(entries, names.last()) is None && w == rest.len() {
                assert(creates_at(names, matched, entries, k) && names[k] == n);
            } else {
                assert(rest[w] == n);
                let i = choose|i: int| #[trigger] creates_at(init, matched, entries, i) && init[i] == n;
                assert(creates_at(names, matched, entries, i) && names[i] == n);
            }
        }
    }
}

/// Plans the synchronisation of `registry` with the particle type names
/// `type_names`: every type that the editor could read (`matched`, by
/// position) and that has no editor entry gets one, and every entry whose
/// type is gone is dropped.
pub fn plan_registry_sync(type_names: &Vec<String>, matched: &Vec<bool>, registry: &ParticleEditorRegistry) -> (res:
    RegistrySyncPlan)
    requires
        matched@.len() == type_names@.len(),
    ensures
        views(res.to_create@) == names_to_create(views(type_names@), matched@, registry.spec_entries()),
        views(res.to_remove@) == entry_names(registry.spec_entries()).filter(
            |n: Seq<char>| !views(type_names@).contains(n),
        ),
{
    let ghost names = views(type_names@);
    let mut to_create: Vec<String> = Vec::new();
    let mut i: usize = 0;
    while i < type_names.len()
        invariant
            i <= type_names@.len(),
            matched@.len() == type_names@.len(),
            names == views(type_names@),
            views(to_create@) == names_to_create(names.take(i as int), matched@, registry.spec_entries()),
        decreases type_names@.len() - i,
    {
        let ghost before = to_create@;
        assert(names.take(i + 1).drop_last() =~= names.take(i as int));
        assert(names.take(i + 1).last() == type_names@[i as int]@);
        if matched[i] && !registry.contains(type_names[i].as_str()) {
            to_create.push(owned(type_names[i].as_str()));
            proof {
                assert(views(to_create@) =~= views(before).push(type_names@[i as int]@));
            }
        }
        i += 1;
    }
    assert(names.take(type_names@.len() as int) =~= names);
    let entries = registry.iter();
    let ghost keys = entry_names(registry.spec_entries());
    let ghost pred_remove = |n: Seq<char>| !names.contains(n);
    let mut to_remove: Vec<String> = Vec::new();
    let mut j: usize = 0;
    while j < entries.len()
        invariant
            j <= entries@.len(),
            names == views(type_names@),
            keys == entry_names(entries_view(entries@)),
            keys.len() == entries@.len(),
            pred_remove == (|n: Seq<char>| !names.contains(n)),
            views(to_remove@) == keys.take(j as int).filter(pred_remove),
        decreases entries@.len() - j,
    {
        assert(keys.take(j + 1).drop_last() =~= keys.take(j as int));
        assert(keys[j as int] == entries@[j as int].0@);
        if !contains_name(type_names, entries[j].0.as_str()) {
            to_remove.push(owned(entries[j].0.as_str()));
        }
        proof {
            reveal_with_fuel(Seq::filter, 1);
            assert(views(to_remove@) =~= keys.take(j + 1).filter(pred_remove));
        }
        j += 1;
    }
    assert(keys.take(entries@.len() as int) =~= keys);
    RegistrySyncPlan { to_create, to_remove }
}

fn contains_name(names: &Vec<String>, name: &str) -> (res: bool)
    ensures
        res == views(names@).contains(name@),
{
    crate::naming::contains_name(names, name)
}

/// Carrying out a synchronisation plan leaves registered exactly the old
/// names whose particle type is still there, and the missing type names
/// that the editor could read.
pub proof fn law_sync_plan_matches_types(
    type_names: Seq<Seq<char>>,
    matched: Seq<bool>,
    entries: Seq<(Seq<char>, EntityBits)>,
)
    ensures
        ({
            let keys = entry_names(entries).to_set();
            let created = names_to_create(type_names, matched, entries).to_set();
            let removed = entry_names(entries).filter(|n: Seq<char>| !type_names.contains(n)).to_set();
            keys.union(created).difference(removed) == Set::new(
                |n: Seq<char>|
                    (keys.contains(n) && type_names.contains(n)) || exists|i: int|
                        #[trigger] creates_at(type_names, matched, entries, i) && type_names[i] == n,
            )
        }),
{
    broadcast use vstd::seq_lib::group_filter_ensures;

    let keys = entry_names(entries).to_set();
    let pr = |n: Seq<char>| !type_names.contains(n);
    let created = names_to_create(type_names, matched, entries).to_set();
    let removed = entry_names(entries).filter(pr).to_set();
    let target = Set::new(
        |n: Seq<char>|
            (keys.contains(n) && type_names.contains(n)) || exists|i: int|
                #[trigger] creates_at(type_names, matched, entries, i) && type_names[i] == n,
    );
    assert forall|n: Seq<char>| #[trigger] keys.union(created).difference(removed).contains(n) <==> target.contains(n) by {
        lemma_names_to_create_contains(type_names, matched, entries, n);
        if removed.contains(n) {
            entry_names(entries).lemma_filter_contains_rev(pr, n);
            let k = choose|k: int| 0 <= k < entry_names(entries).filter(pr).len() && entry_names(entries).filter(pr)[k] == n;
            assert(pr(entry_names(entries).filter(pr)[k]));
        }
        if keys.contains(n) && !type_names.contains(n) {
            let k = choose|k: int| 0 <= k < entry_names(entries).len() && entry_names(entries)[k] == n;
            entry_names(entries).lemma_filter_contains(pr, k);
        }
        if exists|i: int| #[trigger] creates_at(type_names, matched, entries, i) && type_names[i] == n {
            let i = choose|i: int| #[trigger] creates_at(type_names, matched, entries, i) && type_names[i] == n;
            assert(type_names.contains(n)) by {
                assert(type_names[i] == n);
            }
        }
    }
    assert(keys.union(created).difference(removed) =~= target);
}

/// The entity of `n` after registering `created[k]` under `names[k]` for
/// each `k` in turn, starting from the entries `base`.
pub open spec fn inserted_lookup(
    base: Seq<(Seq<char>, EntityBits)>,
    names: Seq<Seq<char>>,
    created: Seq<EntityBits>,
    n: Seq<char>,
) -> Option<EntityBits>
    decreases names.len(),
{
    if names.len() == 0 {
        lookup(base, n)
    } else if names.last() == n {
        Some(created[names.len() - 1])
    } else {
        inserted_lookup(base, names.drop_last(), created, n)
    }
}

/// The entity of `n` after a synchronisation: the names of `create` are
/// registered with the entities `created`, then the names of `remove` are
/// dropped.
pub open spec fn synced_lookup(
    base: Seq<(Seq<char>, EntityBits)>,
    create: Seq<Seq<char>>,
    created: Seq<EntityBits>,
    remove: Seq<Seq<char>>,
    n: Seq<char>,
) -> Option<EntityBits> {
    if remove.contains(n) {
        None
    } else {
        inserted_lookup(base, create, created, n)
    }
}

/// Carries out a synchronisation plan: each name to create is registered
/// with the editor entity spawned for it (`created`, in the same order),
/// then each name to drop is removed.
pub fn apply_registry_sync(
    registry: &mut ParticleEditorRegistry,
    plan: &RegistrySyncPlan,
    created: &Vec<EntityBits>,
)
    requires
        created@.len() == plan.to_create@.len(),
    ensures
        forall|n: Seq<char>| #[trigger] lookup(final(registry).spec_entries(), n) == synced_lookup(
            old(registry).spec_entries(),
            views(plan.to_create@),
            created@,
            views(plan.to_remove@),
            n,
        ),
{
    let ghost base = registry.spec_entries();
    let ghost create = views(plan.to_create@);
    let ghost remove = views(plan.to_remove@);
    let mut i: usize = 0;
    while i < plan.to_create.len()
        invariant
            i <= plan.to_create@.len(),
            created@.len() == plan.to_create@.len(),
            create == views(plan.to_create@),
            forall|n: Seq<char>| #[trigger] lookup(registry.spec_entries(), n) == inserted_lookup(
                base,
                create.take(i as int),
                created@,
                n,
            ),
        decreases plan.to_create@.len() - i,
    {
        let name = owned(plan.to_create[i].as_str());
        let ghost nv = name@;
        registry.insert(name, created[i]);
        proof {
            assert(create.take(i + 1).drop_last() =~= create.take(i as int));
            assert(create.take(i + 1).last() == nv);
            assert forall|n: Seq<char>| #[trigger] lookup(registry.spec_entries(), n) == inserted_lookup(
                base,
                create.take(i + 1),
                created@,
                n,
            ) by {}
        }
        i += 1;
    }
    assert(create.take(create.len() as int) =~= create);
    let mut j: usize = 0;
    while j < plan.to_remove.len()
        invariant
            j <= plan.to_remove@.len(),
            remove == views(plan.to_remove@),
            forall|n: Seq<char>| #[trigger] lookup(registry.spec_entries(), n) == (if remove.take(j as int).contains(n) {
                None
            } else {
                inserted_lookup(base, create, created@, n)
            }),
        decreases plan.to_remove@.len() - j,
    {
        let ghost nv = plan.to_remove@[j as int]@;
        registry.remove(plan.to_remove[j].as_str());
        proof {
            let t0 = remove.take(j as int);
            let t1 = remove.take(j + 1);
            assert(t1 =~= t0.push(nv));
            assert forall|n: Seq<char>| #[trigger] lookup(registry.spec_entries(), n) == (if t1.contains(n) {
                None
            } else {
                inserted_lookup(base, create, created@, n)
            }) by {
                if n == nv {
                    assert(t1[j as int] == n);
                } else if t1.contains(n) {
                    let k = choose|k: int| 0 <= k < t1.len() && #[trigger] t1[k] == n;
                    assert(t0[k] == n);
                } else if t0.contains(n) {
                    let k = choose|k: int| 0 <= k < t0.len() && #[trigger] t0[k] == n;
                    assert(t1[k] == n);
                }
            }
        }
        j += 1;
    }
    assert(remove.take(remove.len() as int) =~= remove);
}

proof fn lemma_inserted_absent(
    base: Seq<(Seq<char>, EntityBits)>,
    names: Seq<Seq<char>>,
    created: Seq<EntityBits>,
    n: Seq<char>,
)
    requires
        !names.contains(n),
    ensures
        inserted_lookup(base, names, created, n) == lookup(base, n),
    decreases names.len(),
{
    if names.len() > 0 {
        assert(names.last() == names[names.len() - 1]);
        if names.drop_last().contains(n) {
            let k = choose|k: int| 0 <= k < names.drop_last().len() && names.drop_last()[k] == n;
            assert(names[k] == n);
        }
        lemma_inserted_absent(base, names.drop_last(), created, n);
    }
}

proof fn lemma_inserted_present(
    base: Seq<(Seq<char>, EntityBits)>,
    names: Seq<Seq<char>>,
    created: Seq<EntityBits>,
    n: Seq<char>,
)
    requires
        names.contains(n),
    ensures
        inserted_lookup(base, names, created, n) is Some,
    decreases names.len(),
{
    if names.last() != n {
        let k = choose|k: int| 0 <= k < names.len() && names[k] == n;
        assert(k != names.len() - 1);
        assert(names.drop_last()[k] == n);
        lemma_inserted_present(base, names.drop_last(), created, n);
    }
}

proof fn lemma_registered_iff_lookup(entries: Seq<(Seq<char>, EntityBits)>, n: Seq<char>)
    ensures
        entry_names(entries).contains(n) == (lookup(entries, n) is Some),
{
    if lookup(entries, n) is Some {
        lemma_lookup_found(entries, n);
        let k = choose|k: int| 0 <= k < entries.len() && entries[k].0 == n && lookup(entries, n) == Some(entries[k].1);
        assert(entry_names(entries)[k] == n);
    }
    if entry_names(entries).contains(n) {
        let k = choose|k: int| 0 <= k < entry_names(entries).len() && entry_names(entries)[k] == n;
        assert(entries[k].0 == n);
        lemma_lookup_at(entries, n, k);
    }
}

proof fn lemma_lookup_at(entries: Seq<(Seq<char>, EntityBits)>, n: Seq<char>, k: int)
    requires
        0 <= k < entries.len(),
        entries[k].0 == n,
    ensures
        lookup(entries, n) is Some,
    decreases entries.len(),
{
    if entries.last().0 != n {
        assert(k < entries.len() - 1);
        assert(entries.drop_last()[k] == entries[k]);
        lemma_lookup_at(entries.drop_last(), n, k);
    }
}

/// After a synchronisation, a name has an entry exactly when its particle
/// type is there and it either had an entry or could be read by the
/// editor; an entry whose type is still there keeps its editor entity.
pub proof fn law_sync_keeps_entries_of_remaining_types(
    type_names: Seq<Seq<char>>,
    matched: Seq<bool>,
    entries: Seq<(Seq<char>, EntityBits)>,
    created: Seq<EntityBits>,
    n: Seq<char>,
)
    ensures
        ({
            let create = names_to_create(type_names, matched, entries);
            let remove = entry_names(entries).filter(|m: Seq<char>| !type_names.contains(m));
            &&& created.len() >= create.len() ==> ((synced_lookup(entries, create, created, remove, n) is Some)
                == (type_names.contains(n) && (lookup(entries, n) is Some || exists|i: int|
                #[trigger] creates_at(type_names, matched, entries, i) && type_names[i] == n)))
            &&& type_names.contains(n) && lookup(entries, n) is Some ==> synced_lookup(
                entries,
                create,
                created,
                remove,
                n,
            ) == lookup(entries, n)
        }),
{
    broadcast use vstd::seq_lib::group_filter_ensures;

    let pr = |m: Seq<char>| !type_names.contains(m);
    let create = names_to_create(type_names, matched, entries);
    let remove = entry_names(entries).filter(pr);
    lemma_registered_iff_lookup(entries, n);
    lemma_names_to_create_contains(type_names, matched, entries, n);
    if create.contains(n) {
        let i = choose|i: int| #[trigger] creates_at(type_names, matched, entries, i) && type_names[i] == n;
        assert(type_names[i] == n);
        lemma_inserted_present(entries, create, created, n);
    } else {
        lemma_inserted_absent(entries, create, created, n);
    }
    if remove.contains(n) {
        let k = choose|k: int| 0 <= k < remove.len() && remove[k] == n;
        assert(pr(remove[k]));
        entry_names(entries).lemma_filter_contains_rev(pr, n);
    }
    if !type_names.contains(n) && lookup(entries, n) is Some {
        let i = choose|i: int| 0 <= i < entry_names(entries).len() && entry_names(entries)[i] == n;
        entry_names(entries).lemma_filter_contains(pr, i);
    }
}

/// The material state of a particle type.
#[derive(PartialEq, Eq, Structural, Clone, Copy, Debug)]
pub enum MaterialState {
    Wall,
    Solid,
    MovableSolid,
    Liquid,
    Gas,
    Insect,
    Other,
}

/// The material state of a particle type from the material components it
/// has: the first of wall, solid, movable solid, liquid, gas, insect.
pub fn material_state_from_components(
    wall: bool,
    solid: bool,
    movable_solid: bool,
    liquid: bool,
    gas: bool,
    insect: bool,
) -> (res: MaterialState)
    ensures
        res == (if wall {
            MaterialState::Wall
        } else if solid {
            MaterialState::Solid
        } else if movable_solid {
            MaterialState::MovableSolid
        } else if liquid {
            MaterialState::Liquid
        } else if gas {
            MaterialState::Gas
        } else if insect {
            MaterialState::Insect
        } else {
            MaterialState::Other
        }),
{
    if wall {
        MaterialState::Wall
    } else if solid {
        MaterialState::Solid
    } else if movable_solid {
        MaterialState::MovableSolid
    } else if liquid {
        MaterialState::Liquid
    } else if gas {
        MaterialState::Gas
    } else if insect {
        MaterialState::Insect
    } else {
        MaterialState::Other
    }
}

/// The label of a material state.
pub fn material_state_label(state: MaterialState) -> (res: &'static str)
    ensures
        res@ == material_label(state),
{
    match state {
        MaterialState::Wall => "Wall",
        MaterialState::Solid => "Solid",
        MaterialState::MovableSolid => "Movable Solid",
        MaterialState::Liquid => "Liquid",
        MaterialState::Gas => "Gas",
        MaterialState::Insect => "Insect",
        MaterialState::Other => "Other",
    }
}

/// The label shown for a material state.
pub open spec fn material_label(state: MaterialState) -> Seq<char> {
    match state {
        MaterialState::Wall => "Wall"@,
        MaterialState::Solid => "Solid"@,
        MaterialState::MovableSolid => "Movable Solid"@,
        MaterialState::Liquid => "Liquid"@,
        MaterialState::Gas => "Gas"@,
        MaterialState::Insect => "Insect"@,
        MaterialState::Other => "Other"@,
    }
}

/// The labels of the material states are the category names of the particle
/// list, and sort in the list's order: wall, solid, movable solid, liquid and
/// gas first, then insect among the other categories, then "Other"; so no two
/// states share a label.
pub proof fn law_material_labels_follow_category_order()
    ensures
        material_label(MaterialState::Wall) == "Wall"@,
        material_label(MaterialState::Other) == "Other"@,
        category_before(material_label(MaterialState::Wall), material_label(MaterialState::Solid)),
        category_before(
            material_label(MaterialState::Solid),
            material_label(MaterialState::MovableSolid),
        ),
        category_before(
            material_label(MaterialState::MovableSolid),
            material_label(MaterialState::Liquid),
        ),
        category_before(material_label(MaterialState::Liquid), material_label(MaterialState::Gas)),
        category_before(material_label(MaterialState::Gas), material_label(MaterialState::Insect)),
        category_before(material_label(MaterialState::Insect), material_label(MaterialState::Other)),
{
    reveal_strlit("Wall");
    reveal_strlit("Solid");
    reveal_strlit("Movable Solid");
    reveal_strlit("Liquid");
    reveal_strlit("Gas");
    reveal_strlit("Insect");
    reveal_strlit("Other");
    assert("Wall"@.len() == 4 && "Solid"@.len() == 5 && "Movable Solid"@.len() == 13
        && "Liquid"@.len() == 6 && "Gas"@.len() == 3 && "Other"@.len() == 5 && "Insect"@.len() == 6);
    assert("Solid"@[0] != "Other"@[0]);
    assert("Insect"@[0] != "Liquid"@[0]);
}

/// The fluidity used when a liquid or gas has none.
pub const DEFAULT_FLUIDITY: u8 = 3;

/// The fields of the editor data that follow the material state.
pub struct MaterialFields {
    pub material_state: MaterialState,
    pub fluidity: Option<u8>,
    pub has_momentum: bool,
}

/// The fields after `choice` was picked in the state selector: solids,
/// walls and "Other" lose their fluidity; liquids and gases get the
/// default fluidity when they have none; gases and insects lose momentum,
/// and leaving the gas state for anything but an insect gives momentum.
pub open spec fn fields_after_choice(
    state: MaterialState,
    fluidity: Option<u8>,
    has_momentum: bool,
    choice: MaterialState,
) -> (MaterialState, Option<u8>, bool) {
    let from_gas = state == MaterialState::Gas;
    match choice {
        MaterialState::Liquid => (
            choice,
            if fluidity is None {
                Some(DEFAULT_FLUIDITY)
            } else {
                fluidity
            },
            if from_gas {
                true
            } else {
                has_momentum
            },
        ),
        MaterialState::Gas => (
            choice,
            if fluidity is None {
                Some(DEFAULT_FLUIDITY)
            } else {
                fluidity
            },
            false,
        ),
        MaterialState::Insect => (choice, fluidity, false),
        _ => (
            choice,
            None,
            if from_gas {
                true
            } else {
                has_momentum
            },
        ),
    }
}

impl MaterialFields {
    /// Applies the choice of `choice` in the state selector. Returns whether
    /// the liquid resistance must receive its default (when a liquid is
    /// chosen and `has_liquid_resistance` is false).
    pub fn choose_material_state(&mut self, choice: MaterialState, has_liquid_resistance: bool) -> (needs_liquid_resistance: bool)
        ensures
            (final(self).material_state, final(self).fluidity, final(self).has_momentum)
                == fields_after_choice(
                old(self).material_state,
                old(self).fluidity,
                old(self).has_momentum,
                choice,
            ),
            needs_liquid_resistance == (choice == MaterialState::Liquid && !has_liquid_resistance),
            (choice == MaterialState::Liquid || choice == MaterialState::Gas) ==> final(self).fluidity
                == (if old(self).fluidity is Some {
                old(self).fluidity
            } else {
                Some(3u8)
            }),
    {
        let from_gas = self.material_state == MaterialState::Gas;
        self.material_state = choice;
        match choice {
            MaterialState::Liquid => {
                if self.fluidity.is_none() {
                    self.fluidity = Some(DEFAULT_FLUIDITY);
                }
                if from_gas {
                    self.has_momentum = true;
                }
                !has_liquid_resistance
            },
            MaterialState::Gas => {
                if self.fluidity.is_none() {
                    self.fluidity = Some(DEFAULT_FLUIDITY);
                }
                self.has_momentum = false;
                false
            },
            MaterialState::Insect => {
                self.has_momentum = false;
                false
            },
            _ => {
                self.fluidity = None;
                if from_gas {
                    self.has_momentum = true;
                }
                false
            },
        }
    }
}

/// A liquid or gas chosen in the state selector always has a fluidity, and
/// any other state but an insect has none.
pub proof fn law_fluidity_follows_state(
    state: MaterialState,
    fluidity: Option<u8>,
    has_momentum: bool,
    choice: MaterialState,
)
    ensures
        (choice == MaterialState::Liquid || choice == MaterialState::Gas) ==> fields_after_choice(
            state,
            fluidity,
            has_momentum,
            choice,
        ).1 is Some,
        (choice == MaterialState::Wall || choice == MaterialState::Solid || choice
            == MaterialState::MovableSolid || choice == MaterialState::Other) ==> fields_after_choice(
            state,
            fluidity,
            has_momentum,
            choice,
        ).1 is None,
        choice == MaterialState::Gas ==> !fields_after_choice(state, fluidity, has_momentum, choice).2,
{
}

/// Choosing a liquid or a gas keeps the fluidity the particle had, and gives
/// it the default fluidity 3 only when it had none; an insect keeps its
/// fluidity; the chosen state is always taken; a gas or an insect has no
/// momentum, and a gas that becomes a liquid gains momentum.
pub proof fn law_choice_keeps_edited_fluidity(
    state: MaterialState,
    fluidity: Option<u8>,
    has_momentum: bool,
    choice: MaterialState,
)
    ensures
        ({
            let r = fields_after_choice(state, fluidity, has_momentum, choice);
            &&& r.0 == choice
            &&& (choice == MaterialState::Liquid || choice == MaterialState::Gas) && fluidity is Some
                ==> r.1 == fluidity
            &&& (choice == MaterialState::Liquid || choice == MaterialState::Gas) && fluidity is None
                ==> r.1 == Some(3u8)
            &&& choice == MaterialState::Insect ==> r.1 == fluidity && !r.2
            &&& choice == MaterialState::Gas ==> !r.2
            &&& state == MaterialState::Gas && choice != MaterialState::Gas && choice
                != MaterialState::Insect ==> r.2
            &&& state != MaterialState::Gas && choice != MaterialState::Gas && choice
                != MaterialState::Insect ==> r.2 == has_momentum
        }),
{
}

/// Reads an edited duration field: when `text` is a valid number of
/// milliseconds it replaces `duration_ms`, otherwise the value stays.
pub fn apply_duration_text(duration_ms: &mut u64, text: &str)
    ensures
        match parse_unsigned(text@, u64::MAX as nat) {
            Some(v) => *final(duration_ms) == v,
            None => *final(duration_ms) == *old(duration_ms),
        },
        *final(duration_ms) == duration_after_edit(text@, *old(duration_ms)),
{
    if let Some(ms) = parse_unsigned_upto(text, u64::MAX) {
        *duration_ms = ms;
    }
}

/// A millisecond field's text and value agree: the text reads as the value,
/// or does not read as a number at all.
pub open spec fn duration_pair_consistent(text: Seq<char>, ms: u64) -> bool {
    match parse_unsigned(text, u64::MAX as nat) {
        Some(v) => v == ms,
        None => true,
    }
}

/// The value of a millisecond field after its text became `text`.
pub open spec fn duration_after_edit(text: Seq<char>, ms: u64) -> u64 {
    match parse_unsigned(text, u64::MAX as nat) {
        Some(v) => v as u64,
        None => ms,
    }
}

/// Whatever is typed, an edited millisecond field keeps its text and value
/// in agreement.
pub proof fn law_edited_duration_stays_consistent(text: Seq<char>, ms: u64)
    ensures
        duration_pair_consistent(text, duration_after_edit(text, ms)),
{
}

/// The duration given to a new timed lifetime, timed colour change or burn.
pub const DEFAULT_DURATION_MS: u64 = 1000;

/// The tick rate given to a new chance lifetime or burn.
pub const DEFAULT_TICK_RATE_MS: u64 = 100;

/// A fresh millisecond field holding `ms`: its text is the numeral of `ms`.
pub fn new_duration_field(ms: u64) -> (res: (String, u64))
    ensures
        res.0@ == decimal(ms as nat),
        res.1 == ms,
{
    let mut text = String::new();
    push_decimal(&mut text, ms as u128);
    assert(text@ =~= decimal(ms as nat));
    (text, ms)
}

/// A fresh millisecond field's text and value agree.
pub proof fn law_new_duration_field_is_consistent(ms: u64)
    ensures
        duration_pair_consistent(decimal(ms as nat), ms),
{
    lemma_parse_decimal(ms as nat, u64::MAX as nat);
}

/// What loading a particle into the editor does.
#[derive(PartialEq, Eq, Structural, Clone, Copy, Debug)]
pub enum LoadIntoEditor {
    /// Show the editor entry that already exists.
    SelectExisting(EntityBits),
    /// Build an editor entry from the particle type, register and show it.
    CreateFromType,
    /// There is no such particle.
    Ignore,
}

/// Decides how the particle `name` is loaded into the editor.
pub fn decide_load_into_editor(registry: &ParticleEditorRegistry, name: &str, type_exists: bool) -> (res:
    LoadIntoEditor)
    ensures
        match lookup(registry.spec_entries(), name@) {
            Some(e) => res == LoadIntoEditor::SelectExisting(e),
            None => res == (if type_exists {
                LoadIntoEditor::CreateFromType
            } else {
                LoadIntoEditor::Ignore
            }),
        },
{
    match registry.get(name) {
        Some(e) => LoadIntoEditor::SelectExisting(e),
        None => if type_exists {
            LoadIntoEditor::CreateFromType
        } else {
            LoadIntoEditor::Ignore
        },
    }
}

/// Whether applying editor changes creates a new particle type: for a new
/// entry, or when no type of its name exists.
pub fn apply_creates_new_type(is_new: bool, type_exists: bool) -> (res: bool)
    ensures
        res == (is_new || !type_exists),
{
    is_new || !type_exists
}

/// Whether a modified editor entry is saved automatically: only an entry
/// that is not new and whose particle type exists.
pub fn auto_save_applies(is_new: bool, type_exists: bool) -> (res: bool)
    ensures
        res == (!is_new && type_exists),
{
    !is_new && type_exists
}

/// The entities whose components the editor could read (`matched`, by
/// position), in order.
pub open spec fn matched_entities(entities: Seq<EntityBits>, matched: Seq<bool>) -> Seq<EntityBits>
    decreases entities.len(),
{
    if entities.len() == 0 {
        Seq::empty()
    } else {
        let rest = matched_entities(entities.drop_last(), matched);
        if matched[entities.len() - 1] {
            rest.push(entities.last())
        } else {
            rest
        }
    }
}

/// The particle types that get an entry in the rebuilt editor state: those
/// of `entities` whose components could be read.
pub fn editor_state_keys(entities: &Vec<EntityBits>, matched: &Vec<bool>) -> (res: Vec<EntityBits>)
    requires
        matched@.len() == entities@.len(),
    ensures
        res@ == matched_entities(entities@, matched@),
{
    let mut res: Vec<EntityBits> = Vec::new();
    let mut i: usize = 0;
    while i < entities.len()
        invariant
            i <= entities@.len(),
            matched@.len() == entities@.len(),
            res@ == matched_entities(entities@.take(i as int), matched@),
        decreases entities@.len() - i,
    {
        assert(entities@.take(i + 1).drop_last() =~= entities@.take(i as int));
        if matched[i] {
            res.push(entities[i]);
        }
        i += 1;
    }
    assert(entities@.take(entities@.len() as int) =~= entities@);
    res
}

/// The movement values the editor keeps for a particle type (movement,
/// density, speed, momentum, resistor): each component the type has, and
/// for each one it lacks the value the editor had cached for it, or else the
/// default.
pub fn cached_movement<Mv, D, S, Mo, R>(
    components: (Option<Mv>, Option<D>, Option<S>, Option<Mo>, Option<R>),
    cached: Option<(Mv, D, S, Mo, R)>,
    defaults: (Mv, D, S, Mo, R),
) -> (res: (Mv, D, S, Mo, R))
    ensures
        ({
            let kept = match cached {
                Some(c) => c,
                None => defaults,
            };
            &&& res.0 == (match components.0 {
                Some(x) => x,
                None => kept.0,
            })
            &&& res.1 == (match components.1 {
                Some(x) => x,
                None => kept.1,
            })
            &&& res.2 == (match components.2 {
                Some(x) => x,
                None => kept.2,
            })
            &&& res.3 == (match components.3 {
                Some(x) => x,
                None => kept.3,
            })
            &&& res.4 == (match components.4 {
                Some(x) => x,
                None => kept.4,
            })
        }),
{
    let kept = match cached {
        Some(c) => c,
        None => defaults,
    };
    let (k0, k1, k2, k3, k4) = kept;
    let (c0, c1, c2, c3, c4) = components;
    (
        match c0 {
            Some(x) => x,
            None => k0,
        },
        match c1 {
            Some(x) => x,
            None => k1,
        },
        match c2 {
            Some(x) => x,
            None => k2,
        },
        match c3 {
            Some(x) => x,
            None => k3,
        },
        match c4 {
            Some(x) => x,
            None => k4,
        },
    )
}

/// The whole-number defaults of the editor's per-type data, used for the
/// components a particle type lacks (durations and periods in
/// milliseconds).
#[derive(PartialEq, Eq, Structural, Clone, Copy, Debug)]
pub struct EditorStateDefaults {
    pub density: u32,
    pub speed_min: u8,
    pub speed_max: u8,
    pub timed_lifetime_ms: u64,
    pub chance_lifetime_tick_ms: u64,
    pub chance_mutation_tick_ms: u64,
    pub burn_duration_ms: u64,
    pub burn_tick_ms: u64,
    pub corrosion_tick_ms: u64,
}

impl EditorStateDefaults {
    /// Density 1000, speed from 1 to 3, a 10 s timed lifetime, and 100 ms
    /// ticks for chance lifetimes, mutations, burning (which lasts 1 s) and
    /// corrosion.
    pub fn new() -> (res: Self)
        ensures
            res == (EditorStateDefaults {
                density: 1000,
                speed_min: 1,
                speed_max: 3,
                timed_lifetime_ms: 10000,
                chance_lifetime_tick_ms: 100,
                chance_mutation_tick_ms: 100,
                burn_duration_ms: 1000,
                burn_tick_ms: 100,
                corrosion_tick_ms: 100,
            }),
    {
        EditorStateDefaults {
            density: 1000,
            speed_min: 1,
            speed_max: 3,
            timed_lifetime_ms: 10000,
            chance_lifetime_tick_ms: 100,
            chance_mutation_tick_ms: 100,
            burn_duration_ms: 1000,
            burn_tick_ms: 100,
            corrosion_tick_ms: 100,
        }
    }
}

/// Where a particle type takes its colors from; the payloads describe the
/// palette, the gradient and the texture.
pub enum ColorSourceKind<P, G, T> {
    Palette(P),
    Gradient(G),
    Texture(T),
}

/// The palette, gradient and texture that the editor keeps for a particle
/// type, so that switching its color source back restores them: the type's
/// own source fills its slot, and each other slot keeps what the editor had
/// cached for the type, or else its default.
pub fn editor_color_slots<P, G, T>(
    source: ColorSourceKind<P, G, T>,
    cached: Option<(P, G, T)>,
    defaults: (P, G, T),
) -> (res: (P, G, T))
    ensures
        ({
            let kept = match cached {
                Some(c) => c,
                None => defaults,
            };
            match source {
                ColorSourceKind::Palette(p) => res == (p, kept.1, kept.2),
                ColorSourceKind::Gradient(g) => res == (kept.0, g, kept.2),
                ColorSourceKind::Texture(t) => res == (kept.0, kept.1, t),
            }
        }),
{
    let kept = match cached {
        Some(c) => c,
        None => defaults,
    };
    let (kept_palette, kept_gradient, kept_texture) = kept;
    match source {
        ColorSourceKind::Palette(p) => (p, kept_gradient, kept_texture),
        ColorSourceKind::Gradient(g) => (kept_palette, g, kept_texture),
        ColorSourceKind::Texture(t) => (kept_palette, kept_gradient, t),
    }
}

/// Removes colour `index` from a palette or burning-colour list; the remove
/// button only acts while more than one colour is left.
pub fn remove_color_if_not_last<C>(colors: &mut Vec<C>, index: usize)
    requires
        index < old(colors)@.len(),
    ensures
        old(colors)@.len() > 1 ==> final(colors)@ == old(colors)@.remove(index as int),
        old(colors)@.len() <= 1 ==> final(colors)@ == old(colors)@,
{
    if colors.len() > 1 {
        colors.remove(index);
    }
}

/// The density given when a particle type has none.
pub const DEFAULT_DENSITY: u32 = 100;

/// The top speed given when a particle type has none.
pub const DEFAULT_MAX_SPEED: u8 = 3;

/// The millisecond fields of an editor lifetime: a timed lifetime's
/// duration, or a chance lifetime's tick rate (its chance is a float the
/// caller keeps).
pub enum LifetimeFields {
    Timed { duration_ms: u64, duration_str: String },
    Chance { tick_rate_ms: u64, tick_rate_str: String },
}

/// The fluidity of a liquid or gas component, cut to a byte as the editor
/// holds it.
pub open spec fn fluidity_of(liquid: Option<usize>, gas: Option<usize>) -> Option<u8> {
    match liquid {
        Some(f) => Some(f as u8),
        None => match gas {
            Some(f) => Some(f as u8),
            None => None,
        },
    }
}

/// The editor's fluidity for a particle type: that of its liquid component,
/// else that of its gas component, cut to a byte; none when it has neither.
pub fn fluidity_from_components(liquid: Option<usize>, gas: Option<usize>) -> (res: Option<u8>)
    ensures
        res == fluidity_of(liquid, gas),
{
    match liquid {
        Some(f) => Some(f as u8),
        None => match gas {
            Some(f) => Some(f as u8),
            None => None,
        },
    }
}

/// What the editor reads of a particle type's components, as whole numbers
/// and flags: density, top speed, momentum, the duration of a timed
/// lifetime and the tick period of a chance lifetime's timer (in
/// milliseconds), which material components it has (with the fluidity of a
/// liquid or gas), and whether it has a colour profile.
pub struct ParticleComponents {
    pub density: Option<u32>,
    pub max_speed: Option<u8>,
    pub has_momentum: bool,
    pub timed_lifetime_ms: Option<u128>,
    pub chance_lifetime_tick_ms: Option<Option<u128>>,
    pub wall: bool,
    pub solid: bool,
    pub movable_solid: bool,
    pub liquid_fluidity: Option<usize>,
    pub gas_fluidity: Option<usize>,
    pub insect: bool,
    pub has_color_profile: bool,
}

/// The colours of new editor data: the particle type's own colour profile,
/// or a default palette.
pub enum EditorColor {
    /// Copy the source and assignment of the particle type's profile.
    FromProfile,
    /// A palette at `index` of RGBA colours, assigned in sequence when
    /// `sequential`.
    DefaultPalette { index: usize, colors: Vec<(u8, u8, u8, u8)>, sequential: bool },
}

/// The grey of the default palette.
pub const DEFAULT_GREY: (u8, u8, u8, u8) = (128, 128, 128, 255);

/// The editor data built from a particle type, but for its floats (the
/// chance of a chance lifetime or colour change, resistances, burning and
/// fire).
pub struct ComponentFields {
    pub name: String,
    pub material_state: MaterialState,
    pub density: u32,
    pub max_speed: u8,
    pub has_momentum: bool,
    pub fluidity: Option<u8>,
    pub lifetime: Option<LifetimeFields>,
    pub color: EditorColor,
    pub is_new: bool,
    pub is_modified: bool,
}

/// Builds editor data for the particle type `name` from its components;
/// `None` when its components could not be read. The data is neither new
/// nor modified. A missing density is 100 and a missing top speed 3; a
/// timed lifetime wins over a chance one, and a chance lifetime without a
/// timer ticks every 100 ms; without a colour profile the colours are a
/// single grey palette assigned in sequence.
pub fn from_particle_type(name: String, components: Option<ParticleComponents>) -> (res: Option<ComponentFields>)
    ensures
        components is None ==> res is None,
        components matches Some(c) ==> (res matches Some(f) && {
            &&& f.name@ == name@
            &&& !f.is_new
            &&& !f.is_modified
            &&& f.material_state == (if c.wall {
                MaterialState::Wall
            } else if c.solid {
                MaterialState::Solid
            } else if c.movable_solid {
                MaterialState::MovableSolid
            } else if c.liquid_fluidity is Some {
                MaterialState::Liquid
            } else if c.gas_fluidity is Some {
                MaterialState::Gas
            } else if c.insect {
                MaterialState::Insect
            } else {
                MaterialState::Other
            })
            &&& f.fluidity == fluidity_of(c.liquid_fluidity, c.gas_fluidity)
            &&& f.density == (match c.density {
                Some(d) => d,
                None => DEFAULT_DENSITY,
            })
            &&& f.max_speed == (match c.max_speed {
                Some(v) => v,
                None => DEFAULT_MAX_SPEED,
            })
            &&& f.has_momentum == c.has_momentum
            &&& match c.timed_lifetime_ms {
                Some(ms) => f.lifetime matches Some(LifetimeFields::Timed { duration_ms, duration_str })
                    && duration_ms == ms as u64 && duration_str@ == decimal(ms as nat),
                None => match c.chance_lifetime_tick_ms {
                    Some(tick) => {
                        let t: u64 = match tick {
                            Some(ms) => ms as u64,
                            None => DEFAULT_TICK_RATE_MS,
                        };
                        f.lifetime matches Some(LifetimeFields::Chance { tick_rate_ms, tick_rate_str })
                            && tick_rate_ms == t && tick_rate_str@ == decimal(t as nat)
                    },
                    None => f.lifetime is None,
                },
            }
            &&& c.has_color_profile ==> f.color is FromProfile
            &&& !c.has_color_profile ==> (f.color matches EditorColor::DefaultPalette { index, colors, sequential }
                && index == 0 && colors@ == seq![DEFAULT_GREY] && sequential)
        }),
{
    let c = match components {
        Some(c) => c,
        None => {
            return None;
        },
    };
    let material_state = material_state_from_components(
        c.wall,
        c.solid,
        c.movable_solid,
        c.liquid_fluidity.is_some(),
        c.gas_fluidity.is_some(),
        c.insect,
    );
    let fluidity = fluidity_from_components(c.liquid_fluidity, c.gas_fluidity);
    let density = match c.density {
        Some(d) => d,
        None => DEFAULT_DENSITY,
    };
    let max_speed = match c.max_speed {
        Some(v) => v,
        None => DEFAULT_MAX_SPEED,
    };
    let lifetime = match c.timed_lifetime_ms {
        Some(ms) => {
            let mut text = String::new();
            push_decimal(&mut text, ms);
            assert(text@ =~= decimal(ms as nat));
            Some(LifetimeFields::Timed { duration_ms: ms as u64, duration_str: text })
        },
        None => match c.chance_lifetime_tick_ms {
            Some(tick) => {
                let t: u64 = match tick {
                    Some(ms) => ms as u64,
                    None => DEFAULT_TICK_RATE_MS,
                };
                let (text, _) = new_duration_field(t);
                Some(LifetimeFields::Chance { tick_rate_ms: t, tick_rate_str: text })
            },
            None => None,
        },
    };
    let color = if c.has_color_profile {
        EditorColor::FromProfile
    } else {
        let mut colors: Vec<(u8, u8, u8, u8)> = Vec::new();
        colors.push(DEFAULT_GREY);
        assert(colors@ =~= seq![DEFAULT_GREY]);
        EditorColor::DefaultPalette { index: 0, colors, sequential: true }
    };
    Some(
        ComponentFields {
            name,
            material_state,
            density,
            max_speed,
            has_momentum: c.has_momentum,
            fluidity,
            lifetime,
            color,
            is_new: false,
            is_modified: false,
        },
    )
}

/// The whole-number part of a lifetime in the editor.
#[derive(PartialEq, Eq, Structural, Clone, Copy, Debug)]
pub enum LifetimeMillis {
    /// A timed lifetime of this many milliseconds.
    Timed(u64),
    /// A chance lifetime ticking every this many milliseconds.
    Chance(u64),
}

/// How a particle type changes colour: by chance (a float the caller keeps)
/// or every so many milliseconds.
#[derive(PartialEq, Eq, Structural, Clone, Copy, Debug)]
pub enum ColorChange {
    Chance,
    Timed(u64),
}

/// The whole-number part of the editor data that is applied to a particle
/// type.
#[derive(PartialEq, Eq, Structural, Clone, Copy, Debug)]
pub struct EditorDataModel {
    pub material_state: MaterialState,
    pub density: u32,
    pub max_speed: u8,
    pub has_momentum: bool,
    pub fluidity: Option<u8>,
    /// The index of the colour source (palette or gradient).
    pub color_index: usize,
    pub changes_color: Option<ColorChange>,
    pub lifetime: Option<LifetimeMillis>,
    /// Whether the data has a burning configuration.
    pub has_burns: bool,
    /// Whether the data has a fire configuration.
    pub has_fire: bool,
}

/// The material component inserted into a particle type. The resistances
/// of movable solids and liquids are floats the caller supplies.
#[derive(PartialEq, Eq, Structural, Clone, Copy, Debug)]
pub enum MaterialInsert {
    Wall,
    Solid,
    MovableSolid,
    Liquid { fluidity: u8 },
    Gas { fluidity: u8 },
    Insect,
    Nothing,
}

/// What applying editor data does to a particle type, besides removing its
/// previous components.
#[derive(PartialEq, Eq, Structural, Clone, Copy, Debug)]
pub struct ParticleTypeUpdate {
    /// Spawn a new particle type under the data's name (otherwise the
    /// registered one is updated).
    pub create_new: bool,
    pub density: u32,
    pub speed_min: u8,
    pub speed_max: u8,
    /// Insert momentum (at rest).
    pub momentum: bool,
    pub color_index: usize,
    pub changes_color: Option<ColorChange>,
    pub lifetime: Option<LifetimeMillis>,
    pub material: MaterialInsert,
    /// Insert a burning component (its durations and floats come from the
    /// data's burning configuration).
    pub burns: bool,
    /// Insert a fire component (from the data's fire configuration).
    pub fire: bool,
}

/// The material component for a material state: liquids and gases without
/// a fluidity get the default one.
pub open spec fn material_insert(state: MaterialState, fluidity: Option<u8>) -> MaterialInsert {
    let f = match fluidity {
        Some(f) => f,
        None => DEFAULT_FLUIDITY,
    };
    match state {
        MaterialState::Wall => MaterialInsert::Wall,
        MaterialState::Solid => MaterialInsert::Solid,
        MaterialState::MovableSolid => MaterialInsert::MovableSolid,
        MaterialState::Liquid => MaterialInsert::Liquid { fluidity: f },
        MaterialState::Gas => MaterialInsert::Gas { fluidity: f },
        MaterialState::Insect => MaterialInsert::Insect,
        MaterialState::Other => MaterialInsert::Nothing,
    }
}

/// The update of a particle type from editor data: density and speed (from
/// 1 to the top speed) always, momentum when asked for, the colour source
/// at the index it had before when one is given (so a gradient keeps its
/// progress), the colour change and lifetime, the material component, and a
/// burning and a fire component when the data configures them.
pub open spec fn update_plan(data: EditorDataModel, create_new: bool, existing_color_index: Option<usize>) -> ParticleTypeUpdate {
    ParticleTypeUpdate {
        create_new,
        density: data.density,
        speed_min: 1,
        speed_max: data.max_speed,
        momentum: data.has_momentum,
        color_index: match existing_color_index {
            Some(i) => i,
            None => data.color_index,
        },
        changes_color: data.changes_color,
        lifetime: data.lifetime,
        material: material_insert(data.material_state, data.fluidity),
        burns: data.has_burns,
        fire: data.has_fire,
    }
}

/// Applying editor data to a liquid or a gas inserts the fluidity that was
/// edited, and the default fluidity 3 only when the data has none; each other
/// material state inserts its own component.
pub proof fn law_applied_material_follows_data(
    data: EditorDataModel,
    create_new: bool,
    existing_color_index: Option<usize>,
)
    ensures
        ({
            let m = update_plan(data, create_new, existing_color_index).material;
            &&& data.material_state == MaterialState::Liquid && data.fluidity is Some ==> m == (
            MaterialInsert::Liquid { fluidity: data.fluidity->0 })
            &&& data.material_state == MaterialState::Liquid && data.fluidity is None ==> m == (
            MaterialInsert::Liquid { fluidity: 3 })
            &&& data.material_state == MaterialState::Gas && data.fluidity is Some ==> m == (
            MaterialInsert::Gas { fluidity: data.fluidity->0 })
            &&& data.material_state == MaterialState::Gas && data.fluidity is None ==> m == (
            MaterialInsert::Gas { fluidity: 3 })
            &&& data.material_state == MaterialState::Wall ==> m == MaterialInsert::Wall
            &&& data.material_state == MaterialState::Solid ==> m == MaterialInsert::Solid
            &&& data.material_state == MaterialState::MovableSolid ==> m
                == MaterialInsert::MovableSolid
            &&& data.material_state == MaterialState::Insect ==> m == MaterialInsert::Insect
            &&& data.material_state == MaterialState::Other ==> m == MaterialInsert::Nothing
        }),
{
}

/// Plans the application of editor data to a particle type.
pub fn particle_type_update(data: &EditorDataModel, create_new: bool, existing_color_index: Option<usize>) -> (res: ParticleTypeUpdate)
    ensures
        res == update_plan(*data, create_new, existing_color_index),
        data.material_state == MaterialState::Liquid && data.fluidity is Some ==> res.material == (
        MaterialInsert::Liquid { fluidity: data.fluidity->0 }),
        data.material_state == MaterialState::Liquid && data.fluidity is None ==> res.material == (
        MaterialInsert::Liquid { fluidity: 3 }),
        data.material_state == MaterialState::Gas && data.fluidity is Some ==> res.material == (
        MaterialInsert::Gas { fluidity: data.fluidity->0 }),
        data.material_state == MaterialState::Gas && data.fluidity is None ==> res.material == (
        MaterialInsert::Gas { fluidity: 3 }),
{
    let f = match data.fluidity {
        Some(f) => f,
        None => DEFAULT_FLUIDITY,
    };
    let material = match data.material_state {
        MaterialState::Wall => MaterialInsert::Wall,
        MaterialState::Solid => MaterialInsert::Solid,
        MaterialState::MovableSolid => MaterialInsert::MovableSolid,
        MaterialState::Liquid => MaterialInsert::Liquid { fluidity: f },
        MaterialState::Gas => MaterialInsert::Gas { fluidity: f },
        MaterialState::Insect => MaterialInsert::Insect,
        MaterialState::Other => MaterialInsert::Nothing,
    };
    ParticleTypeUpdate {
        create_new,
        density: data.density,
        speed_min: 1,
        speed_max: data.max_speed,
        momentum: data.has_momentum,
        color_index: match existing_color_index {
            Some(i) => i,
            None => data.color_index,
        },
        changes_color: data.changes_color,
        lifetime: data.lifetime,
        material,
        burns: data.has_burns,
        fire: data.has_fire,
    }
}

/// Adds a contact rule ("Add Rule"): the particle type's rules receive a
/// clone of `rule`, and the editor's copy of the rules receives `rule`.
pub fn add_contact_rule<R: Clone>(rules: &mut Vec<R>, editor_rules: &mut Vec<R>, rule: R)
    ensures
        final(rules)@.len() == old(rules)@.len() + 1,
        final(rules)@.drop_last() == old(rules)@,
        cloned::<R>(rule, final(rules)@.last()),
        final(editor_rules)@ == old(editor_rules)@.push(rule),
{
    let copy = rule.clone();
    rules.push(copy);
    editor_rules.push(rule);
    assert(rules@.drop_last() =~= old(rules)@);
}

/// Changes contact rule `index` to `rule` on the particle type (a clone)
/// and in the editor's copy.
pub fn set_contact_rule<R: Clone>(rules: &mut Vec<R>, editor_rules: &mut Vec<R>, index: usize, rule: R)
    requires
        index < old(rules)@.len(),
        index < old(editor_rules)@.len(),
    ensures
        final(rules)@.len() == old(rules)@.len(),
        forall|k: int| 0 <= k < old(rules)@.len() && k != index ==> final(rules)@[k] == old(rules)@[k],
        cloned::<R>(rule, final(rules)@[index as int]),
        final(editor_rules)@ == old(editor_rules)@.update(index as int, rule),
{
    let copy = rule.clone();
    rules.set(index, copy);
    editor_rules.set(index, rule);
}

/// Removes contact rule `index` (its "X" button) from the particle type and
/// from the editor's copy.
pub fn remove_contact_rule<R>(rules: &mut Vec<R>, editor_rules: &mut Vec<R>, index: usize)
    requires
        index < old(rules)@.len(),
        index < old(editor_rules)@.len(),
    ensures
        final(rules)@ == old(rules)@.remove(index as int),
        final(editor_rules)@ == old(editor_rules)@.remove(index as int),
{
    rules.remove(index);
    editor_rules.remove(index);
}

/// A click in the editor's particle list.
pub enum ParticleListClick {
    /// The button of the named particle type.
    Particle(String),
    /// "New Particle".
    NewParticle,
    /// "Reset Children".
    ResetChildren,
}

/// The message a click in the particle list sends.
pub enum ParticleListMessage {
    /// Load the named particle type into the editor.
    LoadParticleIntoEditor(String),
    /// Create a particle type, duplicating the named one when given.
    CreateNewParticle(Option<String>),
    /// Apply the editor entry's changes and reset the particles of its type.
    ApplyEditorChangesAndReset(EntityBits),
}

/// The message sent for `click`, given the name of the particle shown in
/// the editor and the selected editor entry: a particle button loads that
/// particle, "New Particle" creates one duplicating the shown particle, and
/// "Reset Children" applies the selected entry, or does nothing without one.
pub fn particle_list_message(
    click: ParticleListClick,
    current_name: Option<String>,
    selected: Option<EntityBits>,
) -> (res: Option<ParticleListMessage>)
    ensures
        click matches ParticleListClick::Particle(n) ==> (res matches Some(
            ParticleListMessage::LoadParticleIntoEditor(m),
        ) && m == n),
        click is NewParticle ==> (res matches Some(ParticleListMessage::CreateNewParticle(d))
            && d == current_name),
        click is ResetChildren ==> match selected {
            Some(e) => res == Some(ParticleListMessage::ApplyEditorChangesAndReset(e)),
            None => res is None,
        },
{
    match click {
        ParticleListClick::Particle(n) => Some(ParticleListMessage::LoadParticleIntoEditor(n)),
        ParticleListClick::NewParticle => Some(ParticleListMessage::CreateNewParticle(current_name)),
        ParticleListClick::ResetChildren => match selected {
            Some(e) => Some(ParticleListMessage::ApplyEditorChangesAndReset(e)),
            None => None,
        },
    }
}

} // verus!
