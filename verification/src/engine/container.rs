//! Containers: storages loaded from a set of Minos files.
use vstd::prelude::*;

use std::marker::PhantomData;

use crate::engine::minos_engine::Engine;
use crate::language::storage::{merge_res_maps, EnvMap, Storage};

verus! {

/// A container whose files are not loaded yet.
#[derive(Debug, Clone)]
pub struct EmptyContainer;

/// A container whose files are loaded.
#[derive(Debug, Clone)]
pub struct StaticContainer;

/// A named set of Minos files and the storage read from them.
#[derive(Debug)]
pub struct Container<State> {
    pub id: String,
    pub description: String,
    /// The files and directories to read, as absolute paths.
    pub paths: Vec<String>,
    pub storage: Storage,
    pub state: PhantomData<State>,
}

/// The resource types of a list of storages merged in turn into `start`.
pub open spec fn fold_resources(start: Map<Seq<char>, EnvMap>, ss: Seq<Storage>) -> Map<Seq<char>, EnvMap>
    decreases ss.len(),
{
    if ss.len() == 0 {
        start
    } else {
        merge_res_maps(fold_resources(start, ss.drop_last()), ss.last().resource_map())
    }
}

/// The attributed resources of a list of storages merged in turn into `start`.
pub open spec fn fold_attributed(start: Map<(Seq<char>, Seq<char>), EnvMap>, ss: Seq<Storage>) -> Map<
    (Seq<char>, Seq<char>),
    EnvMap,
>
    decreases ss.len(),
{
    if ss.len() == 0 {
        start
    } else {
        merge_res_maps(fold_attributed(start, ss.drop_last()), ss.last().attributed_map())
    }
}

impl Container<EmptyContainer> {
    /// A container of the files and directories of `paths`, with nothing loaded yet.
    pub fn new(id: String, description: String, paths: Vec<String>) -> (r: Container<EmptyContainer>)
        ensures
            r.id == id,
            r.description == description,
            r.paths == paths,
            r.storage.wf(),
            r.storage.resources@.len() == 0,
            r.storage.attributed_resources@.len() == 0,
    {
        Container { id, description, paths, storage: Storage::default(), state: PhantomData }
    }

    /// The loaded container: the storages read from its paths, in order, merged into its
    /// storage.
    pub fn load(self, storages: Vec<Storage>) -> (r: Container<StaticContainer>)
        requires
            self.storage.wf(),
            forall|i: int| 0 <= i < storages@.len() ==> (#[trigger] storages@[i]).wf(),
        ensures
            r.id == self.id,
            r.description == self.description,
            r.paths == self.paths,
            r.storage.wf(),
            r.storage.resource_map() == fold_resources(self.storage.resource_map(), storages@),
            r.storage.attributed_map() == fold_attributed(self.storage.attributed_map(), storages@),
    {
        let Container { id, description, paths, storage, state: _ } = self;
        let ghost start = storage.resource_map();
        let ghost astart = storage.attributed_map();
        let ghost all = storages@;
        let total = storages.len();
        let mut storage = storage;
        let mut rest = storages;
        let mut i: usize = 0;
        while rest.len() > 0
            invariant
                total == all.len(),
                0 <= i <= all.len(),
                rest@ == all.skip(i as int),
                storage.wf(),
                forall|k: int| 0 <= k < all.len() ==> (#[trigger] all[k]).wf(),
                storage.resource_map() == fold_resources(start, all.take(i as int)),
                storage.attributed_map() == fold_attributed(astart, all.take(i as int)),
            decreases rest.len(),
        {
            let next = rest.remove(0);
            proof {
                assert(next == all[i as int]);
                assert(all.take(i + 1).drop_last() =~= all.take(i as int));
                assert(all.take(i + 1).last() == all[i as int]);
                assert(rest@ =~= all.skip(i + 1));
            }
            storage.merge(next);
            i = i + 1;
        }
        proof {
            assert(all.take(i as int) =~= all);
        }
        Container { id, description, paths, storage, state: PhantomData }
    }
}

impl Container<StaticContainer> {
    pub fn storage(&self) -> (r: &Storage)
        ensures
            r == &self.storage,
    {
        &self.storage
    }

    /// An engine over the loaded storage.
    pub fn engine(&self) -> (r: Engine<'_>)
        ensures
            r.storage_of() == self.storage,
    {
        Engine::new(&self.storage)
    }
}

} // verus!
