//! The storage: every resource and attributed resource read from Minos texts.
use vstd::prelude::*;

use crate::errors::{lemma_list_fail, list_result, Error};
use crate::keyed::{
    has_key, keyed_map, keys_unique, lemma_keyed_map_domain, lemma_keyed_map_push, lemma_keyed_map_update,
    lemma_keyed_map_value, lemma_keys_unique_push, lemma_keys_unique_update, lemma_seq_sum_element,
    lemma_seq_sum_push, lemma_seq_sum_take, lemma_seq_sum_update, seq_sum,
};
use crate::language::environment::{env_token_ok, env_token_view};
use crate::language::policy::PolicyView;
use crate::language::requirements::is_invalid_token;
use crate::language::resource::{
    attributed_resource_token_shaped, env_or_empty, envs_result, envs_total, fold_envs, lemma_seq_sum_prefix,
    merge_env_maps, resource_token_shaped, AttributedResource, Resource,
};
use crate::tokens::{Identifier, Token};

verus! {

/// The policies of a resource, by environment name.
pub type EnvMap = Map<Seq<char>, Seq<PolicyView>>;

pub open spec fn env_map_or_empty<K>(m: Map<K, EnvMap>, k: K) -> EnvMap {
    if m.dom().contains(k) {
        m[k]
    } else {
        Map::empty()
    }
}

/// A resource map after adding the environments `em` under the key `k`: merged with those
/// already under that key, if any.
pub open spec fn add_res_to_map<K>(m: Map<K, EnvMap>, k: K, em: EnvMap) -> Map<K, EnvMap> {
    m.insert(k, merge_env_maps(env_map_or_empty(m, k), em))
}

/// Two resource maps merged key by key.
pub open spec fn merge_res_maps<K>(a: Map<K, EnvMap>, b: Map<K, EnvMap>) -> Map<K, EnvMap> {
    Map::new(
        |k: K| a.dom().contains(k) || b.dom().contains(k),
        |k: K| merge_env_maps(env_map_or_empty(a, k), env_map_or_empty(b, k)),
    )
}

pub open spec fn res_key(r: Resource) -> Seq<char> {
    r.identifier.0@
}

pub open spec fn attr_key(r: AttributedResource) -> (Seq<char>, Seq<char>) {
    (r.identifier.0@, r.id@)
}

pub open spec fn res_total(r: Resource) -> nat {
    envs_total(r.environments@)
}

pub open spec fn attr_total(r: AttributedResource) -> nat {
    envs_total(r.environments@)
}

/// A collection of resources and attributed resources.
#[derive(Debug)]
pub struct Storage {
    pub resources: Vec<Resource>,
    pub attributed_resources: Vec<AttributedResource>,
}

impl Storage {
    /// The index of the resource of type `name`, if there is one.
    fn resource_index(&self, name: &String) -> (r: Option<usize>)
        ensures
            r matches Some(i) ==> i < self.resources.len() && res_key(self.resources@[i as int]) == name@,
            r is None ==> !has_key(self.resources@, |r: Resource| res_key(r), name@),
    {
        let n = self.resources.len();
        let mut i: usize = 0;
        while i < n
            invariant
                n == self.resources.len(),
                0 <= i <= n,
                forall|j: int| 0 <= j < i ==> res_key(#[trigger] self.resources@[j]) != name@,
            decreases n - i,
        {
            if self.resources[i].identifier.0 == *name {
                return Some(i);
            }
            i = i + 1;
        }
        None
    }

    /// The index of the attributed resource of type `name` and id `id`, if there is one.
    fn attributed_index(&self, name: &String, id: &String) -> (r: Option<usize>)
        ensures
            r matches Some(i) ==> i < self.attributed_resources.len() && attr_key(self.attributed_resources@[i as int])
                == (name@, id@),
            r is None ==> !has_key(self.attributed_resources@, |r: AttributedResource| attr_key(r), (name@, id@)),
    {
        let n = self.attributed_resources.len();
        let mut i: usize = 0;
        while i < n
            invariant
                n == self.attributed_resources.len(),
                0 <= i <= n,
                forall|j: int| 0 <= j < i ==> attr_key(#[trigger] self.attributed_resources@[j]) != (name@, id@),
            decreases n - i,
        {
            if self.attributed_resources[i].identifier.0 == *name && self.attributed_resources[i].id == *id {
                return Some(i);
            }
            i = i + 1;
        }
        None
    }

    /// No two resources share a type, no two attributed resources share a type and an id,
    /// and no resource has two environments of the same name.
    pub open spec fn wf(&self) -> bool {
        &&& keys_unique(self.resources@, |r: Resource| res_key(r))
        &&& keys_unique(self.attributed_resources@, |r: AttributedResource| attr_key(r))
        &&& forall|i: int| 0 <= i < self.resources@.len() ==> (#[trigger] self.resources@[i]).wf()
        &&& forall|i: int| 0 <= i < self.attributed_resources@.len() ==> (#[trigger] self.attributed_resources@[i]).wf()
    }

    /// The policies of each resource type, by environment name.
    pub open spec fn resource_map(&self) -> Map<Seq<char>, EnvMap> {
        keyed_map(self.resources@, |r: Resource| res_key(r), |r: Resource| r.env_map())
    }

    /// The policies of each attributed resource, by type and id, then by environment name.
    pub open spec fn attributed_map(&self) -> Map<(Seq<char>, Seq<char>), EnvMap> {
        keyed_map(self.attributed_resources@, |r: AttributedResource| attr_key(r), |r: AttributedResource| r.env_map())
    }

    /// The number of policies in the storage.
    pub open spec fn total(&self) -> nat {
        seq_sum(self.resources@, |r: Resource| res_total(r)) + seq_sum(
            self.attributed_resources@,
            |r: AttributedResource| attr_total(r),
        )
    }

    /// An empty storage.
    pub fn new_empty() -> (r: Storage)
        ensures
            r.wf(),
            r.resources@.len() == 0,
            r.attributed_resources@.len() == 0,
    {
        Storage { resources: Vec::new(), attributed_resources: Vec::new() }
    }

    pub fn new(resources: Vec<Resource>, attributed_resources: Vec<AttributedResource>) -> (r: Storage)
        requires
            (Storage { resources, attributed_resources }).wf(),
        ensures
            r.resources == resources,
            r.attributed_resources == attributed_resources,
    {
        Storage { resources, attributed_resources }
    }

    pub fn resources(&self) -> (r: &Vec<Resource>)
        ensures
            r == &self.resources,
    {
        &self.resources
    }

    pub fn attributed_resources(&self) -> (r: &Vec<AttributedResource>)
        ensures
            r == &self.attributed_resources,
    {
        &self.attributed_resources
    }

    /// The resource of type `name`, if the storage holds one.
    pub fn get_resource(&self, name: &str) -> (r: Option<&Resource>)
        requires
            self.wf(),
        ensures
            r matches Some(res) ==> self.resource_map().dom().contains(name@) && res.wf() && res_key(*res)
                == name@ && res.env_map() == self.resource_map()[name@],
            r is None ==> !self.resource_map().dom().contains(name@),
    {
        let key = name.to_owned();
        proof {
            lemma_keyed_map_domain(self.resources@, |r: Resource| res_key(r), |r: Resource| r.env_map(), name@);
        }
        match self.resource_index(&key) {
            Some(i) => {
                proof {
                    lemma_keyed_map_value(self.resources@, |r: Resource| res_key(r), |r: Resource| r.env_map(), i as int);
                }
                Some(&self.resources[i])
            },
            None => None,
        }
    }

    /// The attributed resource of type `name` and id `id`, if the storage holds one.
    pub fn get_attributed_resource(&self, name: &str, id: &str) -> (r: Option<&AttributedResource>)
        requires
            self.wf(),
        ensures
            r matches Some(res) ==> self.attributed_map().dom().contains((name@, id@)) && res.wf() && attr_key(*res)
                == (name@, id@) && res.env_map() == self.attributed_map()[(name@, id@)],
            r is None ==> !self.attributed_map().dom().contains((name@, id@)),
    {
        let key_name = name.to_owned();
        let key_id = id.to_owned();
        proof {
            lemma_keyed_map_domain(
                self.attributed_resources@,
                |r: AttributedResource| attr_key(r),
                |r: AttributedResource| r.env_map(),
                (name@, id@),
            );
        }
        match self.attributed_index(&key_name, &key_id) {
            Some(i) => {
                proof {
                    lemma_keyed_map_value(
                        self.attributed_resources@,
                        |r: AttributedResource| attr_key(r),
                        |r: AttributedResource| r.env_map(),
                        i as int,
                    );
                }
                Some(&self.attributed_resources[i])
            },
            None => None,
        }
    }

    /// Adds a resource; if one of the same type exists, the two are merged.
    pub fn add_resource(&mut self, resource: Resource)
        requires
            old(self).wf(),
            resource.wf(),
        ensures
            final(self).wf(),
            final(self).resource_map() == add_res_to_map(old(self).resource_map(), res_key(resource), resource.env_map()),
            final(self).attributed_map() == old(self).attributed_map(),
            final(self).total() == old(self).total() + res_total(resource),
    {
        let ghost key = |r: Resource| res_key(r);
        let ghost val = |r: Resource| r.env_map();
        let ghost cnt = |r: Resource| res_total(r);
        if let Some(i) = self.resource_index(&resource.identifier.0) {
                proof {
                    lemma_keyed_map_value(self.resources@, key, val, i as int);
                }
                let ghost before = self.resources@;
                self.resources[i].merge(resource);
                proof {
                    let new_res = self.resources@[i as int];
                    assert(self.resources@ == before.update(i as int, new_res));
                    lemma_keyed_map_update(before, key, val, i as int, new_res);
                    lemma_keys_unique_update(before, key, i as int, new_res);
                    lemma_seq_sum_update(before, cnt, i as int, new_res);
                    assert forall|j: int| 0 <= j < self.resources@.len() implies (#[trigger] self.resources@[j]).wf() by {
                        if j != i {
                            assert(self.resources@[j] == before[j]);
                        }
                    }
                }
                return;
        }
        proof {
            lemma_keyed_map_domain(self.resources@, key, val, res_key(resource));
            lemma_keyed_map_push(self.resources@, key, val, resource);
            lemma_keys_unique_push(self.resources@, key, resource);
            lemma_seq_sum_push(self.resources@, cnt, resource);
            assert(merge_env_maps(Map::empty(), resource.env_map()) =~= resource.env_map());
        }
        self.resources.push(resource);
    }

    /// Adds an attributed resource; if one of the same type and id exists, the two are merged.
    pub fn add_attributed_resource(&mut self, resource: AttributedResource)
        requires
            old(self).wf(),
            resource.wf(),
        ensures
            final(self).wf(),
            final(self).attributed_map() == add_res_to_map(old(self).attributed_map(), attr_key(resource), resource.env_map()),
            final(self).resource_map() == old(self).resource_map(),
            final(self).total() == old(self).total() + attr_total(resource),
    {
        let ghost key = |r: AttributedResource| attr_key(r);
        let ghost val = |r: AttributedResource| r.env_map();
        let ghost cnt = |r: AttributedResource| attr_total(r);
        if let Some(i) = self.attributed_index(&resource.identifier.0, &resource.id) {
                proof {
                    lemma_keyed_map_value(self.attributed_resources@, key, val, i as int);
                }
                let ghost before = self.attributed_resources@;
                self.attributed_resources[i].merge(resource);
                proof {
                    let new_res = self.attributed_resources@[i as int];
                    assert(self.attributed_resources@ == before.update(i as int, new_res));
                    lemma_keyed_map_update(before, key, val, i as int, new_res);
                    lemma_keys_unique_update(before, key, i as int, new_res);
                    lemma_seq_sum_update(before, cnt, i as int, new_res);
                    assert forall|j: int| 0 <= j < self.attributed_resources@.len() implies (#[trigger] self.attributed_resources@[j]).wf() by {
                        if j != i {
                            assert(self.attributed_resources@[j] == before[j]);
                        }
                    }
                }
                return;
        }
        proof {
            lemma_keyed_map_domain(self.attributed_resources@, key, val, attr_key(resource));
            lemma_keyed_map_push(self.attributed_resources@, key, val, resource);
            lemma_keys_unique_push(self.attributed_resources@, key, resource);
            lemma_seq_sum_push(self.attributed_resources@, cnt, resource);
            assert(merge_env_maps(Map::empty(), resource.env_map()) =~= resource.env_map());
        }
        self.attributed_resources.push(resource);
    }

    /// Merges another storage into this one, resource by resource.
    pub fn merge(&mut self, storage: Storage)
        requires
            old(self).wf(),
            storage.wf(),
        ensures
            final(self).wf(),
            final(self).resource_map() == merge_res_maps(old(self).resource_map(), storage.resource_map()),
            final(self).attributed_map() == merge_res_maps(old(self).attributed_map(), storage.attributed_map()),
            final(self).total() == old(self).total() + storage.total(),
    {
        let ghost key = |r: Resource| res_key(r);
        let ghost val = |r: Resource| r.env_map();
        let ghost cnt = |r: Resource| res_total(r);
        let ghost akey = |r: AttributedResource| attr_key(r);
        let ghost aval = |r: AttributedResource| r.env_map();
        let ghost acnt = |r: AttributedResource| attr_total(r);
        let ghost start = self.resource_map();
        let ghost astart = self.attributed_map();
        let ghost start_total = self.total();
        let Storage { resources, attributed_resources } = storage;
        let ghost all = resources@;
        let ghost all_len = resources.len();
        let ghost aall = attributed_resources@;
        let ghost aall_len = attributed_resources.len();
        let mut rest = resources;
        let mut k: usize = 0;
        proof {
            assert(all.take(0) =~= Seq::<Resource>::empty());
            assert(merge_res_maps(start, keyed_map(all.take(0), key, val)) =~= start) by {
                assert forall|x: Seq<char>| start.dom().contains(x) implies merge_env_maps(
                    env_map_or_empty(start, x),
                    env_map_or_empty(keyed_map(all.take(0), key, val), x),
                ) == start[x] by {
                    assert(merge_env_maps(start[x], Map::empty()) =~= start[x]);
                }
            }
        }
        while rest.len() > 0
            invariant
                key == (|r: Resource| res_key(r)),
                val == (|r: Resource| r.env_map()),
                cnt == (|r: Resource| res_total(r)),
                self.wf(),
                keys_unique(all, key),
                forall|i: int| 0 <= i < all.len() ==> (#[trigger] all[i]).wf(),
                all.len() == all_len,
                0 <= k <= all.len(),
                rest@ == all.skip(k as int),
                self.resource_map() == merge_res_maps(start, keyed_map(all.take(k as int), key, val)),
                self.attributed_map() == astart,
                self.total() == start_total + seq_sum(all.take(k as int), cnt),
            decreases rest.len(),
        {
            let res = rest.remove(0);
            proof {
                assert(res == all[k as int]);
                assert(all.take(k + 1) == all.take(k as int).push(res));
                lemma_keyed_map_push(all.take(k as int), key, val, res);
                lemma_seq_sum_push(all.take(k as int), cnt, res);
                lemma_keyed_map_domain(all.take(k as int), key, val, res_key(res));
                assert(!has_key(all.take(k as int), key, res_key(res))) by {
                    if has_key(all.take(k as int), key, res_key(res)) {
                        let j = choose|j: int| 0 <= j < all.take(k as int).len() && key(all.take(k as int)[j]) == res_key(res);
                        assert(all.take(k as int)[j] == all[j]);
                        assert(key(all[j]) != key(all[k as int]));
                    }
                }
                let m = keyed_map(all.take(k as int), key, val);
                let mm = merge_res_maps(start, m);
                assert(merge_res_maps(start, m.insert(res_key(res), res.env_map())) =~= add_res_to_map(
                    mm,
                    res_key(res),
                    res.env_map(),
                )) by {
                    assert(env_map_or_empty(m, res_key(res)) == Map::<Seq<char>, Seq<PolicyView>>::empty());
                    assert(merge_env_maps(env_map_or_empty(start, res_key(res)), Map::empty())
                        =~= env_map_or_empty(start, res_key(res)));
                    assert(env_map_or_empty(mm, res_key(res)) =~= env_map_or_empty(start, res_key(res)));
                }
            }
            self.add_resource(res);
            k = k + 1;
            proof {
                assert(rest@ == all.skip(k as int));
            }
        }
        proof {
            assert(all.take(k as int) == all);
        }
        let mut arest = attributed_resources;
        let mut ak: usize = 0;
        proof {
            assert(aall.take(0) =~= Seq::<AttributedResource>::empty());
            assert(merge_res_maps(astart, keyed_map(aall.take(0), akey, aval)) =~= astart) by {
                assert forall|x: (Seq<char>, Seq<char>)| astart.dom().contains(x) implies merge_env_maps(
                    env_map_or_empty(astart, x),
                    env_map_or_empty(keyed_map(aall.take(0), akey, aval), x),
                ) == astart[x] by {
                    assert(merge_env_maps(astart[x], Map::empty()) =~= astart[x]);
                }
            }
        }
        let ghost mid_total = self.total();
        let ghost rmap = self.resource_map();
        while arest.len() > 0
            invariant
                akey == (|r: AttributedResource| attr_key(r)),
                aval == (|r: AttributedResource| r.env_map()),
                acnt == (|r: AttributedResource| attr_total(r)),
                self.wf(),
                keys_unique(aall, akey),
                forall|i: int| 0 <= i < aall.len() ==> (#[trigger] aall[i]).wf(),
                aall.len() == aall_len,
                0 <= ak <= aall.len(),
                arest@ == aall.skip(ak as int),
                self.attributed_map() == merge_res_maps(astart, keyed_map(aall.take(ak as int), akey, aval)),
                self.resource_map() == rmap,
                self.total() == mid_total + seq_sum(aall.take(ak as int), acnt),
            decreases arest.len(),
        {
            let res = arest.remove(0);
            proof {
                assert(res == aall[ak as int]);
                assert(aall.take(ak + 1) == aall.take(ak as int).push(res));
                lemma_keyed_map_push(aall.take(ak as int), akey, aval, res);
                lemma_seq_sum_push(aall.take(ak as int), acnt, res);
                lemma_keyed_map_domain(aall.take(ak as int), akey, aval, attr_key(res));
                assert(!has_key(aall.take(ak as int), akey, attr_key(res))) by {
                    if has_key(aall.take(ak as int), akey, attr_key(res)) {
                        let j = choose|j: int| 0 <= j < aall.take(ak as int).len() && akey(aall.take(ak as int)[j]) == attr_key(res);
                        assert(aall.take(ak as int)[j] == aall[j]);
                        assert(akey(aall[j]) != akey(aall[ak as int]));
                    }
                }
                let m = keyed_map(aall.take(ak as int), akey, aval);
                let mm = merge_res_maps(astart, m);
                assert(merge_res_maps(astart, m.insert(attr_key(res), res.env_map())) =~= add_res_to_map(
                    mm,
                    attr_key(res),
                    res.env_map(),
                )) by {
                    assert(env_map_or_empty(m, attr_key(res)) == Map::<Seq<char>, Seq<PolicyView>>::empty());
                    assert(merge_env_maps(env_map_or_empty(astart, attr_key(res)), Map::empty())
                        =~= env_map_or_empty(astart, attr_key(res)));
                    assert(env_map_or_empty(mm, attr_key(res)) =~= env_map_or_empty(astart, attr_key(res)));
                }
            }
            self.add_attributed_resource(res);
            ak = ak + 1;
            proof {
                assert(arest@ == aall.skip(ak as int));
            }
        }
        proof {
            assert(aall.take(ak as int) == aall);
        }
    }

    /// The number of policies in all the resources of the storage.
    pub fn policies_len(&self) -> (r: usize)
        requires
            self.total() <= usize::MAX,
        ensures
            r == self.total(),
    {
        let ghost cnt = |r: Resource| res_total(r);
        let ghost acnt = |r: AttributedResource| attr_total(r);
        let mut len: usize = 0;
        let n = self.resources.len();
        let mut i: usize = 0;
        while i < n
            invariant
                cnt == (|r: Resource| res_total(r)),
                n == self.resources.len(),
                0 <= i <= n,
                len == seq_sum(self.resources@.take(i as int), cnt),
                self.total() <= usize::MAX,
            decreases n - i,
        {
            proof {
                lemma_seq_sum_take(self.resources@, cnt, i as int);
                lemma_seq_sum_prefix(self.resources@, cnt, i + 1);
                lemma_seq_sum_element(self.resources@, cnt, i as int);
            }
            len = len + self.resources[i].policies_len();
            i = i + 1;
        }
        proof {
            assert(self.resources@.take(n as int) == self.resources@);
        }
        let m = self.attributed_resources.len();
        let mut j: usize = 0;
        let ghost base = len as nat;
        while j < m
            invariant
                acnt == (|r: AttributedResource| attr_total(r)),
                m == self.attributed_resources.len(),
                0 <= j <= m,
                base == seq_sum(self.resources@, |r: Resource| res_total(r)),
                len == base + seq_sum(self.attributed_resources@.take(j as int), acnt),
                self.total() <= usize::MAX,
            decreases m - j,
        {
            proof {
                lemma_seq_sum_take(self.attributed_resources@, acnt, j as int);
                lemma_seq_sum_prefix(self.attributed_resources@, acnt, j + 1);
                lemma_seq_sum_element(self.attributed_resources@, acnt, j as int);
            }
            len = len + self.attributed_resources[j].policies_len();
            j = j + 1;
        }
        proof {
            assert(self.attributed_resources@.take(m as int) == self.attributed_resources@);
        }
        len
    }

    /// Reads a storage from a `File` token: between its version and its end, each token is a
    /// resource or an attributed resource, added in turn.
    #[verifier::loop_isolation(false)]
    pub fn from_token(token: Token) -> (r: Result<Storage, Error>)
        requires
            file_token_shaped(token),
        ensures
            r matches Ok(s) ==> s.wf(),
            match token {
                Token::File(inner) => items_result(inner@.subrange(1, inner.len() - 1), r),
                _ => r matches Err(e) && is_invalid_token(e, "File"@, token),
            },
    {
        proof {
            reveal_strlit("File");
        }
        let inner = match token.inner_file() {
            Some(inner) => inner,
            None => {
                return Err(Error::InvalidToken { expected: "File", found: token.name() });
            },
        };
        let ghost items = inner@.subrange(1, inner.len() - 1);
        let mut storage = Storage::new_empty();
        let n = inner.len() - 1;
        let mut i: usize = 1;
        proof {
            assert(items.take(0) =~= Seq::<Token>::empty());
            assert(storage.resource_map() =~= Map::empty());
            assert(storage.attributed_map() =~= Map::empty());
        }
        while i < n
            invariant
                n == inner.len() - 1,
                1 <= i <= n,
                items == inner@.subrange(1, inner.len() - 1),
                forall|j: int| 1 <= j < inner.len() - 1 ==> item_token_shaped(#[trigger] inner@[j]),
                forall|j: int| 0 <= j < i - 1 ==> item_token_ok(#[trigger] items[j]),
                storage.wf(),
                storage.resource_map() == fold_items(items.take(i - 1)).0,
                storage.attributed_map() == fold_items(items.take(i - 1)).1,
            decreases n - i,
        {
            let t = &inner[i];
            assert(items[i - 1] == inner@[i as int]);
            proof {
                assert(items.take(i as int).drop_last() == items.take(i - 1));
                assert(items.take(i as int).last() == *t);
            }
            match t {
                Token::Resource(_) => {
                    match Resource::from_token(t) {
                        Ok(res) => {
                            proof {
                                lemma_item_read_resource(*t, res.env_map());
                            }
                            storage.add_resource(res);
                        },
                        Err(e) => {
                            proof {
                                lemma_item_fail(items, i - 1, e);
                            }
                            return Err(e);
                        },
                    }
                },
                Token::AttributedResource(_) => {
                    match AttributedResource::from_token(t) {
                        Ok(res) => {
                            proof {
                                lemma_item_read_attributed(*t, res.env_map());
                            }
                            storage.add_attributed_resource(res);
                        },
                        Err(e) => {
                            proof {
                                lemma_item_fail(items, i - 1, e);
                            }
                            return Err(e);
                        },
                    }
                },
                _ => {
                    proof {
                        assert(false);
                    }
                    return Err(Error::MissingToken);
                },
            }
            i = i + 1;
        }
        proof {
            assert(items.take(n - 1) == items);
        }
        Ok(storage)
    }
}

impl Default for Storage {
    fn default() -> (r: Storage)
        ensures
            r.wf(),
            r.resources@.len() == 0,
            r.attributed_resources@.len() == 0,
    {
        Storage::new_empty()
    }
}

/// A `File` token holds its version, then resource tokens, then its end.
pub open spec fn file_token_shaped(t: Token) -> bool {
    t matches Token::File(inner) ==> {
        &&& inner.len() >= 2
        &&& forall|i: int| 1 <= i < inner.len() - 1 ==> item_token_shaped(#[trigger] inner@[i])
    }
}

/// A shaped resource or attributed resource token.
pub open spec fn item_token_shaped(t: Token) -> bool {
    ||| t is Resource && resource_token_shaped(t)
    ||| t is AttributedResource && attributed_resource_token_shaped(t)
}

/// Reading a resource from this token succeeds.
pub open spec fn item_token_ok(t: Token) -> bool {
    match t {
        Token::Resource(inner) => forall|i: int| 1 <= i < inner.len() ==> env_token_ok(#[trigger] inner@[i]),
        Token::AttributedResource(inner) => forall|i: int| 2 <= i < inner.len() ==> env_token_ok(#[trigger] inner@[i]),
        _ => false,
    }
}

/// The environments read from a resource token on which reading succeeds.
pub open spec fn item_env_map(t: Token) -> EnvMap {
    match t {
        Token::Resource(inner) => fold_envs(inner@.drop_first().map_values(|q: Token| env_token_view(q))),
        Token::AttributedResource(inner) => fold_envs(inner@.skip(2).map_values(|q: Token| env_token_view(q))),
        _ => arbitrary(),
    }
}

/// The resource maps built by adding each resource token in turn.
pub open spec fn fold_items(ts: Seq<Token>) -> (Map<Seq<char>, EnvMap>, Map<(Seq<char>, Seq<char>), EnvMap>)
    decreases ts.len(),
{
    if ts.len() == 0 {
        (Map::empty(), Map::empty())
    } else {
        let prev = fold_items(ts.drop_last());
        let t = ts.last();
        match t {
            Token::Resource(inner) => (
                add_res_to_map(prev.0, inner@[0]->Identifier_0.0@, item_env_map(t)),
                prev.1,
            ),
            Token::AttributedResource(inner) => (
                prev.0,
                add_res_to_map(prev.1, (inner@[0]->Identifier_0.0@, inner@[1]->String_0@), item_env_map(t)),
            ),
            _ => prev,
        }
    }
}

/// What reading one resource token gives when it fails.
pub open spec fn item_fails(t: Token, e: Error) -> bool {
    match t {
        Token::Resource(inner) => envs_result(inner@.drop_first(), Err(e)),
        Token::AttributedResource(inner) => envs_result(inner@.skip(2), Err(e)),
        _ => false,
    }
}

/// What reading the resource tokens of a file gives: the storage built from them in turn, or
/// the error of the first that does not read.
pub open spec fn items_result(ts: Seq<Token>, r: Result<Storage, Error>) -> bool {
    if forall|i: int| 0 <= i < ts.len() ==> item_token_ok(#[trigger] ts[i]) {
        r matches Ok(s) && s.resource_map() == fold_items(ts).0 && s.attributed_map() == fold_items(ts).1
    } else {
        r matches Err(e) && list_result(
            ts,
            |t: Token| item_token_ok(t),
            |t: Token| 0int,
            |t: Token, e: Error| item_fails(t, e),
            Err(e),
        )
    }
}

proof fn lemma_envs_ok(ts: Seq<Token>, r: Result<EnvMap, Error>)
    requires
        envs_result(ts, r),
    ensures
        r is Ok <==> (forall|i: int| 0 <= i < ts.len() ==> env_token_ok(#[trigger] ts[i])),
        r matches Ok(m) ==> m == fold_envs(ts.map_values(|t: Token| env_token_view(t))),
{
}

proof fn lemma_item_read_resource(t: Token, m: EnvMap)
    requires
        t matches Token::Resource(inner) && resource_token_shaped(t) && envs_result(inner@.drop_first(), Ok(m)),
    ensures
        item_token_ok(t),
        m == item_env_map(t),
{
    if let Token::Resource(inner) = t {
        let ts = inner@.drop_first();
        lemma_envs_ok(ts, Ok(m));
        assert forall|i: int| 1 <= i < inner.len() implies env_token_ok(#[trigger] inner@[i]) by {
            assert(inner@[i] == ts[i - 1]);
        }
    }
}

proof fn lemma_item_read_attributed(t: Token, m: EnvMap)
    requires
        t matches Token::AttributedResource(inner) && attributed_resource_token_shaped(t) && envs_result(
            inner@.skip(2),
            Ok(m),
        ),
    ensures
        item_token_ok(t),
        m == item_env_map(t),
{
    if let Token::AttributedResource(inner) = t {
        let ts = inner@.skip(2);
        lemma_envs_ok(ts, Ok(m));
        assert forall|i: int| 2 <= i < inner.len() implies env_token_ok(#[trigger] inner@[i]) by {
            assert(inner@[i] == ts[i - 2]);
        }
    }
}

proof fn lemma_item_fail(ts: Seq<Token>, k: int, e: Error)
    requires
        0 <= k < ts.len(),
        forall|i: int| 0 <= i < k ==> item_token_ok(#[trigger] ts[i]),
        item_token_shaped(ts[k]),
        item_fails(ts[k], e),
    ensures
        items_result(ts, Err(e)),
{
    let t = ts[k];
    match t {
        Token::Resource(inner) => {
            lemma_envs_ok(inner@.drop_first(), Err(e));
            if item_token_ok(t) {
                assert forall|i: int| 0 <= i < inner@.drop_first().len() implies env_token_ok(
                    #[trigger] inner@.drop_first()[i],
                ) by {
                    assert(inner@.drop_first()[i] == inner@[i + 1]);
                }
            }
        },
        Token::AttributedResource(inner) => {
            lemma_envs_ok(inner@.skip(2), Err(e));
            if item_token_ok(t) {
                assert forall|i: int| 0 <= i < inner@.skip(2).len() implies env_token_ok(
                    #[trigger] inner@.skip(2)[i],
                ) by {
                    assert(inner@.skip(2)[i] == inner@[i + 2]);
                }
            }
        },
        _ => {},
    }
    assert(!item_token_ok(t));
    lemma_list_fail(ts, |t: Token| item_token_ok(t), |t: Token| 0int, |t: Token, e: Error| item_fails(t, e), k, e);
}

/// Merging environment maps is associative.
pub proof fn lemma_merge_env_maps_assoc(a: EnvMap, b: EnvMap, c: EnvMap)
    ensures
        merge_env_maps(merge_env_maps(a, b), c) == merge_env_maps(a, merge_env_maps(b, c)),
{
    let l = merge_env_maps(merge_env_maps(a, b), c);
    let r = merge_env_maps(a, merge_env_maps(b, c));
    assert forall|k: Seq<char>| #[trigger] l.dom().contains(k) implies l[k] == r[k] by {
        assert(env_or_empty(a, k) + env_or_empty(b, k) + env_or_empty(c, k) =~= env_or_empty(a, k) + (env_or_empty(
            b,
            k,
        ) + env_or_empty(c, k)));
    }
    assert(l =~= r);
}

/// Merging an empty environment map, on either side, changes nothing.
pub proof fn lemma_merge_env_maps_empty(a: EnvMap)
    ensures
        merge_env_maps(a, Map::empty()) == a,
        merge_env_maps(Map::empty(), a) == a,
{
    let e = Map::<Seq<char>, Seq<PolicyView>>::empty();
    assert forall|k: Seq<char>| #[trigger] a.dom().contains(k) implies merge_env_maps(a, e)[k] == a[k] && merge_env_maps(
        e,
        a,
    )[k] == a[k] by {
        assert(a[k] + Seq::<PolicyView>::empty() =~= a[k]);
        assert(Seq::<PolicyView>::empty() + a[k] =~= a[k]);
    }
    assert(merge_env_maps(a, e) =~= a);
    assert(merge_env_maps(e, a) =~= a);
}

/// Merging storages is associative: merging `a` with `b` and then `c` gives the resources
/// that merging `a` with `b` already merged with `c` gives.
pub proof fn lemma_merge_res_maps_assoc<K>(a: Map<K, EnvMap>, b: Map<K, EnvMap>, c: Map<K, EnvMap>)
    ensures
        merge_res_maps(merge_res_maps(a, b), c) == merge_res_maps(a, merge_res_maps(b, c)),
{
    let l = merge_res_maps(merge_res_maps(a, b), c);
    let r = merge_res_maps(a, merge_res_maps(b, c));
    assert forall|k: K| #[trigger] l.dom().contains(k) implies l[k] == r[k] by {
        lemma_merge_env_maps_assoc(env_map_or_empty(a, k), env_map_or_empty(b, k), env_map_or_empty(c, k));
        let e = Map::<Seq<char>, Seq<PolicyView>>::empty();
        if !a.dom().contains(k) && !b.dom().contains(k) {
            lemma_merge_env_maps_empty(e);
        }
        if !b.dom().contains(k) && !c.dom().contains(k) {
            lemma_merge_env_maps_empty(e);
        }
    }
    assert(l =~= r);
}

/// Merging an empty storage, on either side, changes none of the resources.
pub proof fn lemma_merge_res_maps_empty<K>(a: Map<K, EnvMap>)
    ensures
        merge_res_maps(a, Map::empty()) == a,
        merge_res_maps(Map::empty(), a) == a,
{
    assert forall|k: K| #[trigger] a.dom().contains(k) implies merge_res_maps(a, Map::empty())[k] == a[k]
        && merge_res_maps(Map::empty(), a)[k] == a[k] by {
        lemma_merge_env_maps_empty(a[k]);
    }
    assert(merge_res_maps(a, Map::empty()) =~= a);
    assert(merge_res_maps(Map::empty(), a) =~= a);
}

} // verus!
