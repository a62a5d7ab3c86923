//! Storage for fetched module source, scoped by function.
use std::collections::HashMap;

use vstd::hash_map::StringHashMap;
use vstd::prelude::*;

use crate::text::opt_view;

verus! {

/// The source of one module of a function.
pub open spec fn stored(
    modules: Map<(u32, Seq<char>), Seq<char>>,
    fn_oid: u32,
    url: Seq<char>,
) -> Option<Seq<char>> {
    if modules.contains_key((fn_oid, url)) {
        Some(modules[(fn_oid, url)])
    } else {
        None
    }
}

/// The modules of all functions but one.
pub open spec fn without_fn(modules: Map<(u32, Seq<char>), Seq<char>>, fn_oid: u32) -> Map<
    (u32, Seq<char>),
    Seq<char>,
> {
    Map::new(
        |k: (u32, Seq<char>)| modules.contains_key(k) && k.0 != fn_oid,
        |k: (u32, Seq<char>)| modules[k],
    )
}

/// Storage for fetched module source, scoped by PostgreSQL function OID.
pub trait ModuleStore {
    /// The source of each stored module, by function and URL. What a store that
    /// does not say so holds is not known.
    open spec fn modules(&self) -> Map<(u32, Seq<char>), Seq<char>> {
        arbitrary()
    }

    /// May looking up the module fail? It may unless the store says otherwise.
    open spec fn fails(&self, fn_oid: u32, url: Seq<char>) -> bool {
        true
    }

    /// Return the cached source for `url` within the namespace of `fn_oid`.
    ///
    /// `Ok(None)` means the module is not present in the store.
    fn load(&self, fn_oid: u32, url: &str) -> (r: Result<Option<String>, String>)
        ensures
            r matches Ok(found) ==> opt_view(found) == stored(self.modules(), fn_oid, url@),
            r is Err ==> self.fails(fn_oid, url@),
    ;

    /// Insert or replace the cached source for `url` within `fn_oid`.
    fn write(&mut self, fn_oid: u32, url: &str, source: &str)
        ensures
            final(self).modules() == old(self).modules().insert((fn_oid, url@), source@),
    ;

    /// Remove all cached modules associated with `fn_oid`.
    fn clear_for_fn(&mut self, fn_oid: u32)
        ensures
            final(self).modules() == without_fn(old(self).modules(), fn_oid),
    ;
}

/// A store in memory.
pub struct HashMapModuleStore(HashMap<u32, StringHashMap<String>>);

impl HashMapModuleStore {
    /// A store without modules.
    pub fn new() -> (r: HashMapModuleStore)
        ensures
            r.modules() == Map::<(u32, Seq<char>), Seq<char>>::empty(),
    {
        let r = HashMapModuleStore(HashMap::new());
        assert(r.modules() =~= Map::<(u32, Seq<char>), Seq<char>>::empty());
        r
    }
}

impl Default for HashMapModuleStore {
    fn default() -> (r: HashMapModuleStore)
        ensures
            r.modules() == Map::<(u32, Seq<char>), Seq<char>>::empty(),
    {
        HashMapModuleStore::new()
    }
}

impl ModuleStore for HashMapModuleStore {
    closed spec fn modules(&self) -> Map<(u32, Seq<char>), Seq<char>> {
        Map::new(
            |k: (u32, Seq<char>)| self.0@.contains_key(k.0) && self.0@[k.0]@.contains_key(k.1),
            |k: (u32, Seq<char>)| self.0@[k.0]@[k.1]@,
        )
    }

    /// Looking up a module in memory never fails.
    open spec fn fails(&self, fn_oid: u32, url: Seq<char>) -> bool {
        false
    }

    fn load(&self, fn_oid: u32, url: &str) -> Result<Option<String>, String> {
        broadcast use vstd::std_specs::hash::group_hash_axioms;

        match self.0.get(&fn_oid) {
            Some(modules) => match modules.get(url) {
                Some(source) => Ok(Some(source.clone())),
                None => Ok(None),
            },
            None => Ok(None),
        }
    }

    fn write(&mut self, fn_oid: u32, url: &str, source: &str) {
        broadcast use vstd::std_specs::hash::group_hash_axioms;

        let mut modules = match self.0.remove(&fn_oid) {
            Some(modules) => modules,
            None => StringHashMap::new(),
        };
        modules.insert(String::from_str(url), String::from_str(source));
        self.0.insert(fn_oid, modules);
        assert(self.modules() =~= old(self).modules().insert((fn_oid, url@), source@));
    }

    fn clear_for_fn(&mut self, fn_oid: u32) {
        broadcast use vstd::std_specs::hash::group_hash_axioms;

        self.0.remove(&fn_oid);
        assert(self.modules() =~= without_fn(old(self).modules(), fn_oid));
    }
}

// ---------------------------------------------------------------------------
// Laws
// ---------------------------------------------------------------------------

/// What was written is what is read, and no other module changes.
pub proof fn law_load_after_write(
    modules: Map<(u32, Seq<char>), Seq<char>>,
    fn_oid: u32,
    url: Seq<char>,
    source: Seq<char>,
    other_oid: u32,
    other_url: Seq<char>,
)
    ensures
        stored(modules.insert((fn_oid, url), source), fn_oid, url) == Some(source),
        (other_oid, other_url) != (fn_oid, url) ==> stored(
            modules.insert((fn_oid, url), source),
            other_oid,
            other_url,
        ) == stored(modules, other_oid, other_url),
{
}

/// Clearing a function takes away all of its modules and none of another's.
pub proof fn law_load_after_clear(
    modules: Map<(u32, Seq<char>), Seq<char>>,
    fn_oid: u32,
    other_oid: u32,
    url: Seq<char>,
)
    ensures
        stored(without_fn(modules, fn_oid), fn_oid, url) is None,
        other_oid != fn_oid ==> stored(without_fn(modules, fn_oid), other_oid, url) == stored(
            modules,
            other_oid,
            url,
        ),
{
}

/// The source of a module is the one that is stored for its function and URL.
pub proof fn law_stored(modules: Map<(u32, Seq<char>), Seq<char>>, fn_oid: u32, url: Seq<char>)
    ensures
        modules.contains_key((fn_oid, url)) ==> stored(modules, fn_oid, url) == Some(
            modules[(fn_oid, url)],
        ),
        !modules.contains_key((fn_oid, url)) ==> stored(modules, fn_oid, url) is None,
{
}

} // verus!
