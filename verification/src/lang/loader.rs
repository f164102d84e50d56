//! Cross-file import resolution as a pure state machine.
//!
//! Reading files belongs to the driver, not to the schema logic, so
//! the traversal is split: the loader decides which import to visit
//! next and how each parsed file merges into the root schema, while
//! the driver reads and parses files and feeds them back.  A visited
//! set guarantees every file is taken at most once, so the traversal
//! terminates even on diamond-shaped or cyclic import graphs; the
//! pending stack makes the traversal depth first, the most recently
//! discovered import first.

use crate::lang::schema::{str_views, MergeError, Schema, SpecModel, SpecService};
use vstd::prelude::*;

verus! {

broadcast use vstd::seq_lib::group_seq_properties;

/// The traversal state: the schema merged so far, the imports not yet
/// resolved (a stack), and the import names already taken.
pub struct SchemaLoader {
    root: Schema,
    pending: Vec<String>,
    visited: Vec<String>,
}

impl SchemaLoader {
    pub closed spec fn root_imports(&self) -> Seq<Seq<char>> {
        str_views(self.root.imports@)
    }

    pub closed spec fn root_models(&self) -> Seq<(Seq<char>, SpecModel)> {
        self.root@.models
    }

    pub closed spec fn root_services(&self) -> Seq<(Seq<char>, SpecService)> {
        self.root@.services
    }

    pub closed spec fn pending_names(&self) -> Seq<Seq<char>> {
        str_views(self.pending@)
    }

    pub closed spec fn visited_names(&self) -> Seq<Seq<char>> {
        str_views(self.visited@)
    }

    /// Starts a traversal from the entry file's schema; its imports
    /// become the initial pending stack.
    pub fn new(entry: Schema) -> (r: SchemaLoader)
        ensures
            r.root_models() == entry@.models,
            r.root_services() == entry@.services,
            r.pending_names() == entry@.imports,
            r.visited_names() == Seq::<Seq<char>>::empty(),
            r.root_imports() == Seq::<Seq<char>>::empty(),
    {
        let Schema { imports, models, services } = entry;
        let r = SchemaLoader {
            root: Schema { imports: Vec::new(), models, services },
            pending: imports,
            visited: Vec::new(),
        };
        proof {
            assert(str_views(r.visited@) =~= Seq::<Seq<char>>::empty());
            assert(str_views(r.root.imports@) =~= Seq::<Seq<char>>::empty());
        }
        r
    }

    /// The next import to load: pops pending names until one is found
    /// that has not been visited, marks it visited, and hands it out.
    /// `None` means every discovered import has been taken and the
    /// traversal is complete.
    #[verifier::loop_isolation(false)]
    pub fn next_import(&mut self) -> (r: Option<String>)
        ensures
            final(self).root_models() == old(self).root_models(),
            final(self).root_services() == old(self).root_services(),
            final(self).root_imports() == old(self).root_imports(),
            match r {
                Some(name) => old(self).pending_names().contains(name@) && !old(self).visited_names().contains(name@) && final(self).visited_names() == old(self).visited_names().push(name@),
                None => final(self).visited_names() == old(self).visited_names() && final(self).pending_names() == Seq::<Seq<char>>::empty() && forall|j: int|
                    0 <= j < old(self).pending_names().len() ==> old(self).visited_names().contains(#[trigger] old(self).pending_names()[j]),
            },
    {
        loop
            invariant
                self.root == old(self).root,
                self.visited@ == old(self).visited@,
                forall|j: int|
                    0 <= j < self.pending@.len() ==> old(self).pending_names().contains(
                        #[trigger] str_views(self.pending@)[j],
                    ),
                forall|j: int|
                    0 <= j < old(self).pending_names().len() ==> (old(self).visited_names().contains(#[trigger] old(self).pending_names()[j])
                        || str_views(self.pending@).contains(old(self).pending_names()[j])),
            decreases self.pending@.len(),
        {
            let ghost pend0 = str_views(self.pending@);
            let candidate = match self.pending.pop() {
                Some(c) => c,
                None => {
                    return None;
                },
            };
            proof {
                assert(pend0[pend0.len() - 1] == candidate@);
                assert(pend0.contains(candidate@));
                assert(str_views(self.pending@) =~= pend0.take(pend0.len() - 1));
                assert(forall|j: int|
                    0 <= j < str_views(self.pending@).len() ==> #[trigger] str_views(
                        self.pending@,
                    )[j] == pend0[j]);
            }
            let mut seen = false;
            let vn = self.visited.len();
            let mut k: usize = 0;
            while k < vn
                invariant
                    vn == self.visited@.len(),
                    k <= vn,
                    seen ==> self.visited_names().contains(candidate@),
                    !seen ==> forall|j: int|
                        0 <= j < k ==> #[trigger] str_views(self.visited@)[j] != candidate@,
                decreases vn - k,
            {
                if crate::text::str_eq(self.visited[k].as_str(), candidate.as_str()) {
                    proof {
                        assert(str_views(self.visited@)[k as int] == candidate@);
                    }
                    seen = true;
                }
                k += 1;
            }
            if !seen {
                let ghost vis0 = str_views(self.visited@);
                proof {
                    assert(forall|j: int|
                        0 <= j < vis0.len() ==> #[trigger] vis0[j] != candidate@);
                    assert(!vis0.contains(candidate@));
                }
                self.visited.push(candidate.clone());
                proof {
                    assert(str_views(self.visited@) =~= vis0.push(candidate@));
                }
                return Some(candidate);
            }
        }
    }

    /// Merges one parsed imported file into the root; its own imports
    /// join the pending stack, to be visited next (depth first).  A
    /// model or service name already defined is a duplicate and
    /// rejects the load.
    pub fn add_schema(&mut self, parsed: Schema) -> (r: Result<(), MergeError>)
        ensures
            match r {
                Ok(_) => {
                    &&& crate::lang::schema::spec_first_dup(
                        old(self).root_models(),
                        parsed@.models,
                    ) is None
                    &&& crate::lang::schema::spec_first_dup(
                        old(self).root_services(),
                        parsed@.services,
                    ) is None
                    &&& final(self).root_models() == old(self).root_models() + parsed@.models
                    &&& final(self).root_services() == old(self).root_services()
                        + parsed@.services
                    &&& final(self).pending_names() == old(self).pending_names() + old(
                        self,
                    ).root_imports() + parsed@.imports
                    &&& final(self).root_imports() == Seq::<Seq<char>>::empty()
                    &&& final(self).visited_names() == old(self).visited_names()
                },
                Err(e) => match e@ {
                    crate::lang::schema::SpecMergeError::DuplicateModel(n) =>
                        crate::lang::schema::spec_first_dup(
                        old(self).root_models(),
                        parsed@.models,
                    ) == Some(n),
                    crate::lang::schema::SpecMergeError::DuplicateService(n) =>
                        crate::lang::schema::spec_first_dup(
                        old(self).root_models(),
                        parsed@.models,
                    ) is None && crate::lang::schema::spec_first_dup(
                        old(self).root_services(),
                        parsed@.services,
                    ) == Some(n),
                },
            },
    {
        let ghost pend0 = str_views(self.pending@);
        let mut taken = Schema::new();
        core::mem::swap(&mut taken, &mut self.root);
        let ghost base = taken@;
        let merged = match taken.merge(parsed) {
            Ok(s) => s,
            Err(e) => {
                return Err(e);
            },
        };
        let Schema { imports, models, services } = merged;
        let mut imports = imports;
        proof {
            assert(str_views(self.pending@ + imports@) =~= str_views(self.pending@) + str_views(
                imports@,
            ));
            assert(pend0 + base.imports + parsed@.imports =~= pend0 + (base.imports
                + parsed@.imports));
        }
        self.pending.append(&mut imports);
        self.root = Schema { imports: Vec::new(), models, services };
        proof {
            assert(str_views(self.root.imports@) =~= Seq::<Seq<char>>::empty());
        }
        Ok(())
    }

    /// The fully merged schema, once every import has been taken.
    pub fn finish(self) -> (r: Schema)
        ensures
            r@.models == self.root_models(),
            r@.services == self.root_services(),
    {
        self.root
    }
}

} // verus!
