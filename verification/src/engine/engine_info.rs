//! Figures about the policies that a storage holds.
use vstd::prelude::*;

use crate::keyed::{lemma_seq_sum_element, seq_sum};
use crate::language::environment::Environment;
use crate::language::policy::Policy;
use crate::language::resource::{envs_total, AttributedResource, Resource};
use crate::language::storage::{attr_total, res_key, res_total, Storage};
use crate::tokens::Identifier;

verus! {

/// Which resources a question about policies is asked of.
#[derive(Debug, Clone, Copy)]
pub enum Criteria<'a> {
    /// The resource type of that name.
    ResourceType(&'a str),
    /// The attributed resources of that id.
    ResourceId(&'a str),
}

/// The policies of a list of environments, one environment after the other.
pub open spec fn flat_policies(envs: Seq<Environment>) -> Seq<Policy>
    decreases envs.len(),
{
    if envs.len() == 0 {
        Seq::empty()
    } else {
        flat_policies(envs.drop_last()) + envs.last().policies@
    }
}

/// The policies that a list of references points to.
pub open spec fn policies_of(v: Seq<&Policy>) -> Seq<Policy> {
    v.map_values(|p: &Policy| *p)
}

/// The index of the resource of type `ty`, where the storage holds one.
pub open spec fn resource_index(s: Storage, ty: Seq<char>) -> int {
    choose|i: int| 0 <= i < s.resources@.len() && res_key(#[trigger] s.resources@[i]) == ty
}

/// The first attributed resource of `rs` whose id is `id`, by index.
pub open spec fn first_with_id(rs: Seq<AttributedResource>, id: Seq<char>) -> Option<int> {
    if exists|i: int| 0 <= i < rs.len() && (#[trigger] rs[i]).id@ == id {
        Some(choose|i: int| 0 <= i < rs.len() && rs[i].id@ == id && forall|j: int| 0 <= j < i ==> (#[trigger] rs[j]).id@ != id)
    } else {
        None
    }
}

/// The number of policies that [`EngineInfo::policies_len`] counts.
pub open spec fn criteria_policies_len(s: Storage, criteria: Option<Criteria>) -> nat {
    match criteria {
        None => s.total(),
        Some(Criteria::ResourceType(ty)) => if exists|i: int| 0 <= i < s.resources@.len() && res_key(#[trigger] s.resources@[i]) == ty@ {
            res_total(s.resources@[resource_index(s, ty@)])
        } else {
            0
        },
        Some(Criteria::ResourceId(id)) => match first_with_id(s.attributed_resources@, id@) {
            Some(i) => attr_total(s.attributed_resources@[i]),
            None => 0,
        },
    }
}

/// The attributed resources of `rs` whose id is `id`, in their order.
pub open spec fn with_id(rs: Seq<AttributedResource>, id: Seq<char>) -> Seq<AttributedResource>
    decreases rs.len(),
{
    if rs.len() == 0 {
        Seq::empty()
    } else if rs.last().id@ == id {
        with_id(rs.drop_last(), id).push(rs.last())
    } else {
        with_id(rs.drop_last(), id)
    }
}

/// `out` lists the resources of `rs`, each by its type with the policies of all its
/// environments.
pub open spec fn lists_policies<'a>(out: Seq<(Identifier, Vec<&'a Policy>)>, rs: Seq<(Identifier, Seq<Environment>)>) -> bool {
    &&& out.len() == rs.len()
    &&& forall|k: int|
        0 <= k < out.len() ==> (#[trigger] out[k]).0 == rs[k].0 && policies_of(out[k].1@) == flat_policies(rs[k].1)
}

/// A resource type with its environments.
pub open spec fn res_entry(r: Resource) -> (Identifier, Seq<Environment>) {
    (r.identifier, r.environments@)
}

/// An attributed resource's type with its environments.
pub open spec fn attr_entry(r: AttributedResource) -> (Identifier, Seq<Environment>) {
    (r.identifier, r.environments@)
}

/// The resources whose policies [`EngineInfo::policies`] lists.
pub open spec fn criteria_entries(s: Storage, criteria: Criteria) -> Seq<(Identifier, Seq<Environment>)> {
    match criteria {
        Criteria::ResourceType(ty) => if exists|i: int| 0 <= i < s.resources@.len() && res_key(#[trigger] s.resources@[i]) == ty@ {
            seq![res_entry(s.resources@[resource_index(s, ty@)])]
        } else {
            Seq::empty()
        },
        Criteria::ResourceId(id) => with_id(s.attributed_resources@, id@).map_values(|r: AttributedResource| attr_entry(r)),
    }
}

/// A read-only view of a storage that answers questions about its policies.
#[derive(Debug, Clone, Copy)]
pub struct EngineInfo<'a> {
    pub storage: &'a Storage,
}

fn collect_policies<'a>(environments: &'a Vec<Environment>) -> (r: Vec<&'a Policy>)
    ensures
        policies_of(r@) == flat_policies(environments@),
{
    let mut out: Vec<&'a Policy> = Vec::new();
    let n = environments.len();
    let mut i: usize = 0;
    while i < n
        invariant
            n == environments.len(),
            0 <= i <= n,
            policies_of(out@) == flat_policies(environments@.take(i as int)),
        decreases n - i,
    {
        let env = &environments[i];
        let ghost before = policies_of(out@);
        let m = env.policies.len();
        let mut j: usize = 0;
        while j < m
            invariant
                n == environments.len(),
                i < n,
                env == &environments@[i as int],
                m == env.policies.len(),
                0 <= j <= m,
                policies_of(out@) == before + env.policies@.take(j as int),
            decreases m - j,
        {
            let ghost prev = out@;
            out.push(&env.policies[j]);
            proof {
                assert(policies_of(out@) =~= policies_of(prev).push(env.policies@[j as int]));
                assert(env.policies@.take(j + 1) =~= env.policies@.take(j as int).push(env.policies@[j as int]));
                assert(policies_of(out@) =~= before + env.policies@.take(j + 1));
            }
            j = j + 1;
        }
        proof {
            assert(environments@.take(i + 1).drop_last() =~= environments@.take(i as int));
            assert(env.policies@.take(m as int) =~= env.policies@);
        }
        i = i + 1;
    }
    proof {
        assert(environments@.take(n as int) =~= environments@);
    }
    out
}

impl<'a> EngineInfo<'a> {
    pub fn new(storage: &'a Storage) -> (r: EngineInfo<'a>)
        ensures
            r.storage == storage,
    {
        EngineInfo { storage }
    }

    /// The number of policies of the storage, of one resource type, or of the first
    /// attributed resource with an id; 0 where there is no such resource.
    pub fn policies_len(&self, criteria: Option<Criteria>) -> (r: usize)
        requires
            self.storage.wf(),
            self.storage.total() <= usize::MAX,
        ensures
            r == criteria_policies_len(*self.storage, criteria),
    {
        let s = self.storage;
        match criteria {
            None => s.policies_len(),
            Some(Criteria::ResourceType(ty)) => {
                let n = s.resources.len();
                let mut i: usize = 0;
                while i < n
                    invariant
                        n == s.resources.len(),
                        0 <= i <= n,
                        s.wf(),
                        s.total() <= usize::MAX,
                        s == self.storage,
                        criteria == Some(Criteria::ResourceType(ty)),
                        forall|j: int| 0 <= j < i ==> res_key(#[trigger] s.resources@[j]) != ty@,
                    decreases n - i,
                {
                    if crate::text::str_eq(s.resources[i].identifier.0.as_str(), ty) {
                        proof {
                            lemma_seq_sum_element(s.resources@, |r: Resource| res_total(r), i as int);
                            assert(res_key(s.resources@[i as int]) == ty@);
                            let c = resource_index(*s, ty@);
                            if c != i {
                                assert(res_key(s.resources@[c]) == res_key(s.resources@[i as int]));
                            }
                            assert(c == i);
                        }
                        let r = s.resources[i].policies_len();
                        return r;
                    }
                    i = i + 1;
                }
                0
            },
            Some(Criteria::ResourceId(id)) => {
                let n = s.attributed_resources.len();
                let mut i: usize = 0;
                while i < n
                    invariant
                        n == s.attributed_resources.len(),
                        0 <= i <= n,
                        s.total() <= usize::MAX,
                        s == self.storage,
                        criteria == Some(Criteria::ResourceId(id)),
                        forall|j: int| 0 <= j < i ==> (#[trigger] s.attributed_resources@[j]).id@ != id@,
                    decreases n - i,
                {
                    if crate::text::str_eq(s.attributed_resources[i].id.as_str(), id) {
                        proof {
                            lemma_seq_sum_element(
                                s.attributed_resources@,
                                |r: AttributedResource| attr_total(r),
                                i as int,
                            );
                            let rs = s.attributed_resources@;
                            assert(rs[i as int].id@ == id@);
                            assert(0 <= i < rs.len() && rs[i as int].id@ == id@ && forall|j: int| 0 <= j < i ==> (#[trigger] rs[j]).id@ != id@);
                            let c = first_with_id(rs, id@)->0;
                            assert(c == i) by {
                                if c < i {
                                } else if c > i {
                                    assert(rs[i as int].id@ != id@);
                                }
                            }
                        }
                        return s.attributed_resources[i].policies_len();
                    }
                    i = i + 1;
                }
                0
            },
        }
    }

    /// The policies of one resource type, or of every attributed resource with an id, each
    /// listed under its type.
    pub fn policies(&self, criteria: Option<Criteria>) -> (r: Vec<(Identifier, Vec<&'a Policy>)>)
        requires
            criteria is Some,
            self.storage.wf(),
        ensures
            lists_policies(r@, criteria_entries(*self.storage, criteria->0)),
    {
        let s: &'a Storage = self.storage;
        let mut out: Vec<(Identifier, Vec<&'a Policy>)> = Vec::new();
        match criteria {
            Some(Criteria::ResourceType(ty)) => {
                let n = s.resources.len();
                let mut i: usize = 0;
                while i < n
                    invariant
                        n == s.resources.len(),
                        0 <= i <= n,
                        s.wf(),
                        s == self.storage,
                        criteria == Some(Criteria::ResourceType(ty)),
                        out@.len() == 0,
                        forall|j: int| 0 <= j < i ==> res_key(#[trigger] s.resources@[j]) != ty@,
                    decreases n - i,
                {
                    if crate::text::str_eq(s.resources[i].identifier.0.as_str(), ty) {
                        let ps = collect_policies(&s.resources[i].environments);
                        out.push((s.resources[i].identifier.clone(), ps));
                        proof {
                            assert(res_key(s.resources@[i as int]) == ty@);
                            let c = resource_index(*s, ty@);
                            if c != i {
                                assert(res_key(s.resources@[c]) == res_key(s.resources@[i as int]));
                            }
                            assert(criteria_entries(*s, criteria->0) =~= seq![res_entry(s.resources@[i as int])]);
                        }
                        return out;
                    }
                    i = i + 1;
                }
                proof {
                    assert(criteria_entries(*s, criteria->0) =~= Seq::empty());
                }
                out
            },
            Some(Criteria::ResourceId(id)) => {
                let ghost rs = s.attributed_resources@;
                let ghost f = |r: AttributedResource| attr_entry(r);
                let n = s.attributed_resources.len();
                let mut i: usize = 0;
                while i < n
                    invariant
                        n == s.attributed_resources.len(),
                        rs == s.attributed_resources@,
                        f == (|r: AttributedResource| attr_entry(r)),
                        0 <= i <= n,
                        lists_policies(out@, with_id(rs.take(i as int), id@).map_values(f)),
                    decreases n - i,
                {
                    proof {
                        assert(rs.take(i + 1).drop_last() =~= rs.take(i as int));
                        assert(rs.take(i + 1).last() == rs[i as int]);
                    }
                    if crate::text::str_eq(s.attributed_resources[i].id.as_str(), id) {
                        let ps = collect_policies(&s.attributed_resources[i].environments);
                        let ghost prev = out@;
                        out.push((s.attributed_resources[i].identifier.clone(), ps));
                        proof {
                            let w = with_id(rs.take(i + 1), id@);
                            assert(w == with_id(rs.take(i as int), id@).push(rs[i as int]));
                            assert(w.map_values(f) =~= with_id(rs.take(i as int), id@).map_values(f).push(f(rs[i as int])));
                            assert forall|k: int| 0 <= k < out@.len() implies (#[trigger] out@[k]).0 == w.map_values(f)[k].0
                                && policies_of(out@[k].1@) == flat_policies(w.map_values(f)[k].1) by {
                                if k < prev.len() {
                                    assert(out@[k] == prev[k]);
                                }
                            }
                        }
                    }
                    i = i + 1;
                }
                proof {
                    assert(rs.take(n as int) =~= rs);
                }
                out
            },
            None => out,
        }
    }

    /// The number of resource types.
    pub fn resources_len(&self) -> (r: usize)
        ensures
            r == self.storage.resources@.len(),
    {
        self.storage.resources.len()
    }

    /// The number of attributed resources.
    pub fn attr_resources_len(&self) -> (r: usize)
        ensures
            r == self.storage.attributed_resources@.len(),
    {
        self.storage.attributed_resources.len()
    }

    /// The names of the resource types, in order.
    pub fn resources_names(&self) -> (r: Vec<Identifier>)
        ensures
            r@.len() == self.storage.resources@.len(),
            forall|k: int| 0 <= k < r@.len() ==> #[trigger] r@[k] == self.storage.resources@[k].identifier,
    {
        let s = self.storage;
        let mut out: Vec<Identifier> = Vec::new();
        let n = s.resources.len();
        let mut i: usize = 0;
        while i < n
            invariant
                n == s.resources.len(),
                0 <= i <= n,
                out@.len() == i,
                forall|k: int| 0 <= k < i ==> #[trigger] out@[k] == s.resources@[k].identifier,
            decreases n - i,
        {
            out.push(s.resources[i].identifier.clone());
            i = i + 1;
        }
        out
    }

    /// The type and id of each attributed resource, in order.
    pub fn attr_resources_names(&self) -> (r: Vec<(Identifier, String)>)
        ensures
            r@.len() == self.storage.attributed_resources@.len(),
            forall|k: int|
                0 <= k < r@.len() ==> (#[trigger] r@[k]).0 == self.storage.attributed_resources@[k].identifier
                    && r@[k].1 == self.storage.attributed_resources@[k].id,
    {
        let s = self.storage;
        let mut out: Vec<(Identifier, String)> = Vec::new();
        let n = s.attributed_resources.len();
        let mut i: usize = 0;
        while i < n
            invariant
                n == s.attributed_resources.len(),
                0 <= i <= n,
                out@.len() == i,
                forall|k: int|
                    0 <= k < i ==> (#[trigger] out@[k]).0 == s.attributed_resources@[k].identifier
                        && out@[k].1 == s.attributed_resources@[k].id,
            decreases n - i,
        {
            out.push((s.attributed_resources[i].identifier.clone(), s.attributed_resources[i].id.clone()));
            i = i + 1;
        }
        out
    }
}

} // verus!
