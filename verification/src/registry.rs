//! The finalized component registry: stable identifiers and the dependency
//! order produced by the external naming/ordering pass.

use vstd::prelude::*;

verus! {

/// A stable, totally-ordered identifier for a component, assigned once the
/// component's name has been resolved. An id indexes the registry's forward
/// dependency order: `id` 0 is the first component of that order.
#[derive(Clone, Copy, PartialEq, Eq, Structural, Debug, Hash)]
pub struct ComponentId {
    pub id: usize,
}

/// No two names of the sequence read the same.
pub open spec fn names_unique(names: Seq<Seq<char>>) -> bool {
    forall|i: int, j: int| 0 <= i < j < names.len() ==> names[i] != names[j]
}

/// Some component of the registry carries this name.
pub open spec fn has_name(names: Seq<Seq<char>>, name: Seq<char>) -> bool {
    exists|i: int| 0 <= i < names.len() && names[i] == name
}

/// The id of the component carrying `name`; meaningful only when `has_name`
/// holds of the registry.
pub open spec fn id_of(names: Seq<Seq<char>>, name: Seq<char>) -> int {
    choose|i: int| 0 <= i < names.len() && names[i] == name
}

/// With unique names, `id_of` is the one index carrying the name.
pub proof fn lemma_id_of(names: Seq<Seq<char>>, name: Seq<char>)
    requires
        names_unique(names),
        has_name(names, name),
    ensures
        0 <= id_of(names, name) < names.len(),
        names[id_of(names, name)] == name,
        forall|k: int| 0 <= k < names.len() && names[k] == name ==> k == id_of(names, name),
{
    let i = id_of(names, name);
    assert(0 <= i < names.len() && names[i] == name);
    assert forall|k: int| 0 <= k < names.len() && names[k] == name implies k == i by {
        if k != i {
            if k < i {
                assert(names[k] != names[i]);
            } else {
                assert(names[i] != names[k]);
            }
        }
    }
}

/// The finalized, name-resolved set of components in forward dependency
/// (topological) order. Index `i` holds the name of the component with
/// `ComponentId { id: i }`. Names are unique: an id is never reused.
pub struct Registry {
    names: Vec<String>,
}

impl View for Registry {
    type V = Seq<Seq<char>>;

    closed spec fn view(&self) -> Seq<Seq<char>> {
        self.names@.map_values(|s: String| s@)
    }
}

impl Registry {
    pub open spec fn wf(&self) -> bool {
        names_unique(self@)
    }

    /// Builds the registry from the ordered component names, refusing a list
    /// in which a name occurs twice (an id must never be reused).
    pub fn new(names: Vec<String>) -> (r: Option<Registry>)
        ensures
            r is Some <==> names_unique(names@.map_values(|s: String| s@)),
            r matches Some(reg) ==> reg@ == names@.map_values(|s: String| s@) && reg.wf(),
    {
        let ghost vnames = names@.map_values(|s: String| s@);
        let n = names.len();
        let mut i: usize = 0;
        while i < n
            invariant
                n == names.len(),
                vnames == names@.map_values(|s: String| s@),
                i <= n,
                forall|p: int, q: int| 0 <= p < q < names.len() && p < i ==> vnames[p] != vnames[q],
            decreases n - i,
        {
            let mut j: usize = i + 1;
            while j < n
                invariant
                    n == names.len(),
                    vnames == names@.map_values(|s: String| s@),
                    i < n,
                    i + 1 <= j <= n,
                    forall|q: int| i < q < j ==> vnames[i as int] != vnames[q],
                decreases n - j,
            {
                if names[i] == names[j] {
                    proof {
                        assert(vnames[i as int] == names@[i as int]@);
                        assert(vnames[j as int] == names@[j as int]@);
                        assert(!names_unique(vnames));
                    }
                    return None;
                }
                j += 1;
            }
            i += 1;
        }
        Some(Registry { names })
    }

    /// How many components the registry holds.
    pub fn len(&self) -> (n: usize)
        ensures
            n == self@.len(),
    {
        self.names.len()
    }

    /// The name of the component with id `i`.
    pub fn name_at(&self, i: usize) -> (name: &String)
        requires
            i < self@.len(),
        ensures
            name@ == self@[i as int],
    {
        &self.names[i]
    }

    /// Resolves a component name to its id: `Some` exactly when the registry
    /// holds the name, and then the returned id carries it.
    pub fn lookup(&self, name: &String) -> (r: Option<ComponentId>)
        ensures
            r is Some <==> has_name(self@, name@),
            r matches Some(c) ==> c.id < self@.len() && self@[c.id as int] == name@,
    {
        let n = self.names.len();
        let mut i: usize = 0;
        while i < n
            invariant
                n == self.names.len(),
                i <= n,
                forall|k: int| 0 <= k < i ==> self@[k] != name@,
            decreases n - i,
        {
            if self.names[i] == *name {
                proof {
                    assert(self@[i as int] == self.names@[i as int]@);
                    assert(has_name(self@, name@));
                }
                return Some(ComponentId { id: i });
            }
            i += 1;
        }
        None
    }
}

} // verus!
