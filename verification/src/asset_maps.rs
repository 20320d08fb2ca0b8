//! The asset manager's in-memory maps: which asset is registered under a store key and under
//! a query (each asset standing as its id, each key and query as its text), and the counter
//! from which fresh asset ids are drawn.
use vstd::prelude::*;
use crate::assets::{
    Status, spec_is_finished, spec_blank, spec_external_status, check_required_metadata,
    plan_external_write, ExternalWrite,
};
use crate::error::{Error, ErrorType};

verus! {

#[verifier::external_type_specification]
#[verifier::external_body]
#[verifier::reject_recursive_types(K)]
#[verifier::reject_recursive_types(V)]
#[verifier::reject_recursive_types(H)]
pub struct ExConcurrentHashMap<K, V, H: std::hash::BuildHasher>(scc::HashMap<K, V, H>);

/// What a concurrent map holds: the text of each key, with the asset id stored under it.
pub uninterp spec fn entries(map: scc::HashMap<String, u64>) -> Map<Seq<char>, u64>;

/// `scc::HashMap::new`: a map with no entries.
#[verifier::external_body]
fn empty_map() -> (fresh: scc::HashMap<String, u64>)
    ensures
        entries(fresh) == no_entries(),
{
    scc::HashMap::new()
}

/// `scc::HashMap::read_sync`: the id stored under `key`, or `None` where the key is absent.
#[verifier::external_body]
fn map_read(m: &scc::HashMap<String, u64>, key: &str) -> (r: Option<u64>)
    ensures
        r == lookup(entries(*m), key@),
{
    m.read_sync(key, |_k, v| *v)
}

/// `scc::HashMap::insert_sync`: stores `id` under `key` where the key is absent and reports
/// `true`; where the key is present, the entry is kept as it was and the call reports `false`.
#[verifier::external_body]
fn map_insert(m: &mut scc::HashMap<String, u64>, key: String, id: u64) -> (r: bool)
    ensures
        r == !entries(*old(m)).contains_key(key@),
        entries(*final(m)) == after_insert(entries(*old(m)), key@, id),
{
    m.insert_sync(key, id).is_ok()
}

/// `scc::HashMap::remove_sync`: removes the entry under `key` and hands back its id.
#[verifier::external_body]
fn map_remove(m: &mut scc::HashMap<String, u64>, key: &str) -> (r: Option<u64>)
    ensures
        r == lookup(entries(*old(m)), key@),
        entries(*final(m)) == entries(*old(m)).remove(key@),
{
    m.remove_sync(key).map(|(_k, v)| v)
}

/// `scc::HashMap::remove_if_sync`: removes the entry under `key` only where it holds `id`,
/// deciding and removing under one lock; reports whether it removed.
#[verifier::external_body]
fn map_remove_if_id(m: &mut scc::HashMap<String, u64>, key: &str, id: u64) -> (r: bool)
    ensures
        r == registered(entries(*old(m)), key@, id),
        entries(*final(m)) == after_remove_if(entries(*old(m)), key@, id),
{
    m.remove_if_sync(key, |v| holds_id(v, id)).is_some()
}

/// Whether a map entry holds the asset id `id`.
fn holds_id(stored: &u64, id: u64) -> (r: bool)
    ensures
        r == (*stored == id),
{
    *stored == id
}

/// A map with nothing registered.
pub open spec fn no_entries() -> Map<Seq<char>, u64> {
    Map::empty()
}

/// The id registered under `k`, if any.
pub open spec fn lookup(m: Map<Seq<char>, u64>, k: Seq<char>) -> Option<u64> {
    if m.contains_key(k) {
        Some(m[k])
    } else {
        None
    }
}

/// Whether `k` is registered with the asset id `id`.
pub open spec fn registered(m: Map<Seq<char>, u64>, k: Seq<char>, id: u64) -> bool {
    m.contains_key(k) && m[k] == id
}

/// The map after registering `id` under `k`: an existing entry is not replaced.
pub open spec fn after_insert(m: Map<Seq<char>, u64>, k: Seq<char>, id: u64) -> Map<Seq<char>, u64> {
    if m.contains_key(k) {
        m
    } else {
        m.insert(k, id)
    }
}

/// The map after removing `k` on the condition that it is still registered with `id`.
pub open spec fn after_remove_if(m: Map<Seq<char>, u64>, k: Seq<char>, id: u64) -> Map<Seq<char>, u64> {
    if registered(m, k, id) {
        m.remove(k)
    } else {
        m
    }
}

/// The id that follows `id`, wrapping at the top of the range as an atomic add does.
pub open spec fn following_id(id: u64) -> u64 {
    if id == u64::MAX {
        0
    } else {
        (id + 1) as u64
    }
}

/// The states that a map entry must not be served in: expired, failed, cancelled, and
/// volatile (a volatile asset is used once and never reused).
pub open spec fn spec_is_stale_terminal(s: Status) -> bool {
    s == Status::Expired || s == Status::Error || s == Status::Cancelled || s == Status::Volatile
}

/// Whether an asset found in a map is a cache miss and has to be dropped and rebuilt.
pub fn is_stale_terminal(s: Status) -> (r: bool)
    ensures
        r == spec_is_stale_terminal(s),
{
    match s {
        Status::Expired | Status::Error | Status::Cancelled | Status::Volatile => true,
        _ => false,
    }
}

/// What a request does with the asset that a map gave it.
#[derive(Debug, Clone, Copy, PartialEq, Eq, Structural)]
pub enum CachedStep {
    /// The asset was stale and its entry has been dropped; the request looks up again.
    Evicted,
    /// The asset is finished: hand it out as it is.
    Serve,
    /// The asset still has to be computed (fast track, or submission to the job queue).
    Run,
}

/// The step for an asset in `status`.
pub open spec fn spec_cached_step(status: Status) -> CachedStep {
    if spec_is_stale_terminal(status) {
        CachedStep::Evicted
    } else if spec_is_finished(status) {
        CachedStep::Serve
    } else {
        CachedStep::Run
    }
}

/// Whether every id registered in `m` is below `bound`.
pub open spec fn ids_below(m: Map<Seq<char>, u64>, bound: u64) -> bool {
    forall|k: Seq<char>| #[trigger] m.contains_key(k) ==> m[k] < bound
}

/// Whether the asset `id` is registered in `m` under some key.
pub open spec fn has_id(m: Map<Seq<char>, u64>, id: u64) -> bool {
    exists|k: Seq<char>| #[trigger] m.contains_key(k) && m[k] == id
}

/// The manager's two maps and its id counter.
pub struct AssetMaps {
    assets: scc::HashMap<String, u64>,
    query_assets: scc::HashMap<String, u64>,
    id: u64,
}

impl AssetMaps {
    /// Which asset id is registered under each store key.
    pub closed spec fn key_assets(&self) -> Map<Seq<char>, u64> {
        entries(self.assets)
    }

    /// Which asset id is registered under each query.
    pub closed spec fn query_assets(&self) -> Map<Seq<char>, u64> {
        entries(self.query_assets)
    }

    /// The id that the next new asset gets.
    pub closed spec fn next(&self) -> u64 {
        self.id
    }

    /// Every registered asset was drawn from the counter before it: the counter's id is one
    /// that no registered asset has.
    pub open spec fn wf(&self) -> bool {
        ids_below(self.key_assets(), self.next()) && ids_below(self.query_assets(), self.next())
    }

    /// Empty maps, with ids counted from 1000.
    pub fn new() -> (r: Self)
        ensures
            r.key_assets() == no_entries(),
            r.query_assets() == no_entries(),
            r.next() == 1000,
            r.wf(),
    {
        AssetMaps { assets: empty_map(), query_assets: empty_map(), id: 1000 }
    }

    /// Draws a fresh asset id.
    pub fn next_id(&mut self) -> (r: u64)
        ensures
            r == old(self).next(),
            final(self).next() == following_id(old(self).next()),
            final(self).key_assets() == old(self).key_assets(),
            final(self).query_assets() == old(self).query_assets(),
            old(self).wf() && old(self).next() < u64::MAX ==> final(self).wf(),
    {
        let r = self.id;
        self.id = if self.id == u64::MAX { 0 } else { self.id + 1 };
        r
    }

    /// The asset registered under a store key.
    pub fn lookup_key_asset(&self, key: &str) -> (r: Option<u64>)
        ensures
            r == lookup(self.key_assets(), key@),
    {
        map_read(&self.assets, key)
    }

    /// Registers an asset under a store key; an asset already registered there stays.
    pub fn insert_key_asset(&mut self, key: &str, asset_id: u64)
        ensures
            final(self).key_assets() == after_insert(old(self).key_assets(), key@, asset_id),
            final(self).query_assets() == old(self).query_assets(),
            final(self).next() == old(self).next(),
            old(self).wf() && asset_id < old(self).next() ==> final(self).wf(),
    {
        let _ = map_insert(&mut self.assets, key.to_owned(), asset_id);
    }

    /// Drops whatever is registered under a store key.
    pub fn remove_key_asset(&mut self, key: &str)
        ensures
            final(self).key_assets() == old(self).key_assets().remove(key@),
            final(self).query_assets() == old(self).query_assets(),
            final(self).next() == old(self).next(),
            old(self).wf() ==> final(self).wf(),
    {
        let _ = map_remove(&mut self.assets, key);
    }

    /// Drops the entry under a store key only where it is still the asset `asset_id`, so that
    /// a replacement registered meanwhile is not evicted; reports whether it dropped it.
    pub fn remove_key_asset_if(&mut self, key: &str, asset_id: u64) -> (r: bool)
        ensures
            r == registered(old(self).key_assets(), key@, asset_id),
            final(self).key_assets() == after_remove_if(old(self).key_assets(), key@, asset_id),
            final(self).query_assets() == old(self).query_assets(),
            final(self).next() == old(self).next(),
            old(self).wf() ==> final(self).wf(),
    {
        map_remove_if_id(&mut self.assets, key, asset_id)
    }

    /// The asset for a store key that is not volatile: the one registered under it, or else a
    /// new asset with a fresh id, registered there.
    pub fn get_nonvolatile_resource_asset(&mut self, key: &str) -> (r: u64)
        ensures
            old(self).key_assets().contains_key(key@) ==> {
                &&& r == old(self).key_assets()[key@]
                &&& final(self).key_assets() == old(self).key_assets()
                &&& final(self).next() == old(self).next()
            },
            !old(self).key_assets().contains_key(key@) ==> {
                &&& r == old(self).next()
                &&& final(self).key_assets() == old(self).key_assets().insert(key@, r)
                &&& final(self).next() == following_id(old(self).next())
                &&& old(self).wf() ==> !has_id(old(self).key_assets(), r) && !has_id(old(self).query_assets(), r)
            },
            final(self).query_assets() == old(self).query_assets(),
            old(self).wf() && old(self).next() < u64::MAX ==> final(self).wf(),
    {
        match map_read(&self.assets, key) {
            Some(id) => id,
            None => {
                let id = self.next_id();
                let _ = map_insert(&mut self.assets, key.to_owned(), id);
                id
            },
        }
    }

    /// The asset registered under a query.
    pub fn lookup_query_asset(&self, query: &str) -> (r: Option<u64>)
        ensures
            r == lookup(self.query_assets(), query@),
    {
        map_read(&self.query_assets, query)
    }

    /// The asset for a query that is not volatile: the one registered under it, or else a new
    /// asset with a fresh id, registered there.
    pub fn get_nonvolatile_query_asset(&mut self, query: &str) -> (r: u64)
        ensures
            old(self).query_assets().contains_key(query@) ==> {
                &&& r == old(self).query_assets()[query@]
                &&& final(self).query_assets() == old(self).query_assets()
                &&& final(self).next() == old(self).next()
            },
            !old(self).query_assets().contains_key(query@) ==> {
                &&& r == old(self).next()
                &&& final(self).query_assets() == old(self).query_assets().insert(query@, r)
                &&& final(self).next() == following_id(old(self).next())
                &&& old(self).wf() ==> !has_id(old(self).key_assets(), r) && !has_id(old(self).query_assets(), r)
            },
            final(self).key_assets() == old(self).key_assets(),
            old(self).wf() && old(self).next() < u64::MAX ==> final(self).wf(),
    {
        match map_read(&self.query_assets, query) {
            Some(id) => id,
            None => {
                let id = self.next_id();
                let _ = map_insert(&mut self.query_assets, query.to_owned(), id);
                id
            },
        }
    }

    /// Removes an expired asset from the maps: from the query map where it is registered
    /// there under `query`, and otherwise from the key map where it is registered there under
    /// `key`. An entry that by now holds another asset is left alone. Reports whether an
    /// entry was removed; an asset with neither a query nor a key has none.
    pub fn remove_expired_from_maps(&mut self, asset_id: u64, query: Option<&str>, key: Option<&str>) -> (r: bool)
        ensures
            ({
                let q_hit = query is Some && registered(old(self).query_assets(), query->0@, asset_id);
                let k_hit = !q_hit && key is Some && registered(old(self).key_assets(), key->0@, asset_id);
                &&& r == (q_hit || k_hit)
                &&& final(self).query_assets() == (if q_hit {
                    old(self).query_assets().remove(query->0@)
                } else {
                    old(self).query_assets()
                })
                &&& final(self).key_assets() == (if k_hit {
                    old(self).key_assets().remove(key->0@)
                } else {
                    old(self).key_assets()
                })
            }),
            final(self).next() == old(self).next(),
            old(self).wf() ==> final(self).wf(),
    {
        let mut removed = false;
        if let Some(q) = query {
            removed = map_remove_if_id(&mut self.query_assets, q, asset_id);
        }
        if !removed {
            if let Some(k) = key {
                removed = map_remove_if_id(&mut self.assets, k, asset_id);
            }
        }
        removed
    }

    /// What a keyed request does with the asset `asset_id` that the key map gave it, found in
    /// `status`: a stale asset's entry is dropped (unless it was replaced meanwhile) and the
    /// request looks up again; a finished one is served; any other is computed.
    pub fn settle_key_asset(&mut self, key: &str, asset_id: u64, status: Status) -> (r: CachedStep)
        ensures
            r == spec_cached_step(status),
            final(self).key_assets() == (if r == CachedStep::Evicted {
                after_remove_if(old(self).key_assets(), key@, asset_id)
            } else {
                old(self).key_assets()
            }),
            final(self).query_assets() == old(self).query_assets(),
            final(self).next() == old(self).next(),
            old(self).wf() ==> final(self).wf(),
    {
        if is_stale_terminal(status) {
            let _ = self.remove_key_asset_if(key, asset_id);
            CachedStep::Evicted
        } else if status.is_finished() {
            CachedStep::Serve
        } else {
            CachedStep::Run
        }
    }

    /// The maps' part of setting a value from outside under a store key. The asset registered
    /// there before (to be cancelled and untracked by the caller) is dropped first; then the
    /// metadata must name its type; then a new asset with a fresh id is registered, with the
    /// plan by which the value is recorded. Returns the previous asset and that outcome.
    pub fn prepare_set_state(
        &mut self,
        key: &str,
        input: Status,
        has_recipe: bool,
        type_identifier: &str,
        described_type: &str,
    ) -> (r: (Option<u64>, Result<(u64, ExternalWrite), Error>))
        ensures
            r.0 == lookup(old(self).key_assets(), key@),
            final(self).query_assets() == old(self).query_assets(),
            (spec_blank(type_identifier@) || spec_blank(described_type@)) ==> {
                &&& r.1 matches Err(e) && e.error_type == ErrorType::General
                &&& final(self).key_assets() == old(self).key_assets().remove(key@)
                &&& final(self).next() == old(self).next()
            },
            !(spec_blank(type_identifier@) || spec_blank(described_type@)) ==> {
                &&& r.1 matches Ok((id, plan)) && id == old(self).next()
                    && plan.status == spec_external_status(input, has_recipe)
                &&& final(self).key_assets() == old(self).key_assets().insert(key@, old(self).next())
                &&& final(self).next() == following_id(old(self).next())
            },
            old(self).wf() ==> !has_id(old(self).key_assets(), old(self).next())
                && !has_id(old(self).query_assets(), old(self).next()),
            old(self).wf() && old(self).next() < u64::MAX ==> final(self).wf(),
    {
        let previous = self.lookup_key_asset(key);
        self.remove_key_asset(key);
        match check_required_metadata(type_identifier, described_type) {
            Err(e) => (previous, Err(e)),
            Ok(()) => {
                let plan = plan_external_write(input, has_recipe);
                let id = self.next_id();
                self.insert_key_asset(key, id);
                (previous, Ok((id, plan)))
            },
        }
    }

    /// The maps' part of setting bytes from outside under a store key: the asset registered
    /// there before (to be cancelled and untracked) is dropped, and none is registered in its
    /// place, as the bytes go to the store alone; then the metadata must name its type. Returns
    /// the previous asset and the plan by which the bytes are recorded.
    pub fn prepare_set_binary(
        &mut self,
        key: &str,
        input: Status,
        has_recipe: bool,
        type_identifier: &str,
        described_type: &str,
    ) -> (r: (Option<u64>, Result<ExternalWrite, Error>))
        ensures
            r.0 == lookup(old(self).key_assets(), key@),
            final(self).key_assets() == old(self).key_assets().remove(key@),
            final(self).query_assets() == old(self).query_assets(),
            final(self).next() == old(self).next(),
            (spec_blank(type_identifier@) || spec_blank(described_type@)) ==> (r.1 matches Err(e) && e.error_type
                == ErrorType::General),
            !(spec_blank(type_identifier@) || spec_blank(described_type@)) ==> (r.1 matches Ok(plan) && plan.status
                == spec_external_status(input, has_recipe)),
            old(self).wf() ==> final(self).wf(),
    {
        let previous = self.lookup_key_asset(key);
        self.remove_key_asset(key);
        match check_required_metadata(type_identifier, described_type) {
            Err(e) => (previous, Err(e)),
            Ok(()) => (previous, Ok(plan_external_write(input, has_recipe))),
        }
    }

    /// The same step for a request by query, on the query map.
    pub fn settle_query_asset(&mut self, query: &str, asset_id: u64, status: Status) -> (r: CachedStep)
        ensures
            r == spec_cached_step(status),
            final(self).query_assets() == (if r == CachedStep::Evicted {
                after_remove_if(old(self).query_assets(), query@, asset_id)
            } else {
                old(self).query_assets()
            }),
            final(self).key_assets() == old(self).key_assets(),
            final(self).next() == old(self).next(),
            old(self).wf() ==> final(self).wf(),
    {
        if is_stale_terminal(status) {
            let _ = map_remove_if_id(&mut self.query_assets, query, asset_id);
            CachedStep::Evicted
        } else if status.is_finished() {
            CachedStep::Serve
        } else {
            CachedStep::Run
        }
    }
}

/// A conditional removal does not evict a replacement: once `k` holds `second`, removing it
/// on the condition that it holds `first` changes nothing, and `second` is still found.
pub proof fn law_remove_if_spares_replacement(m: Map<Seq<char>, u64>, k: Seq<char>, first: u64, second: u64)
    requires
        first != second,
        !m.contains_key(k),
    ensures
        !registered(after_insert(m, k, second), k, first),
        after_remove_if(after_insert(m, k, second), k, first) == after_insert(m, k, second),
        lookup(after_remove_if(after_insert(m, k, second), k, first), k) == Some(second),
{
}

/// Removing on the condition of the asset's own id undoes its registration.
pub proof fn law_remove_if_undoes_insert(m: Map<Seq<char>, u64>, k: Seq<char>, id: u64)
    requires
        !m.contains_key(k),
    ensures
        after_remove_if(after_insert(m, k, id), k, id) == m,
        lookup(after_remove_if(after_insert(m, k, id), k, id), k) is None,
{
    assert(after_remove_if(after_insert(m, k, id), k, id) =~= m);
}

/// Registering under a key that is taken keeps the asset already there.
pub proof fn law_insert_keeps_registered(m: Map<Seq<char>, u64>, k: Seq<char>, id: u64)
    requires
        m.contains_key(k),
    ensures
        after_insert(m, k, id) == m,
        lookup(after_insert(m, k, id), k) == lookup(m, k),
{
}

/// A stale asset is never served from a map: after its request settles, the map no longer
/// holds it under that key, whatever else the map holds.
pub proof fn law_stale_asset_is_not_kept(m: Map<Seq<char>, u64>, k: Seq<char>, id: u64, status: Status)
    requires
        spec_is_stale_terminal(status),
    ensures
        spec_cached_step(status) == CachedStep::Evicted,
        !registered(after_remove_if(m, k, id), k, id),
{
}

/// A stale entry is answered by a new asset: once it is dropped, the key's next request
/// registers the counter's id, which no registered asset has, so not the dropped one.
pub proof fn law_stale_entry_gets_a_new_id(maps: AssetMaps, k: Seq<char>, id: u64)
    requires
        maps.wf(),
        registered(maps.key_assets(), k, id),
    ensures
        id != maps.next(),
        !after_remove_if(maps.key_assets(), k, id).contains_key(k),
{
}

/// Setting a value from outside replaces the key's asset by a new one, unlike every asset
/// registered before.
pub proof fn law_external_value_is_a_new_asset(maps: AssetMaps, k: Seq<char>)
    requires
        maps.wf(),
    ensures
        !has_id(maps.key_assets(), maps.next()),
        !has_id(maps.query_assets(), maps.next()),
        maps.key_assets().remove(k).insert(k, maps.next())[k] == maps.next(),
{
    if has_id(maps.key_assets(), maps.next()) {
        let w = choose|w: Seq<char>| #[trigger] maps.key_assets().contains_key(w) && maps.key_assets()[w] == maps.next();
        assert(maps.key_assets()[w] < maps.next());
    }
    if has_id(maps.query_assets(), maps.next()) {
        let w = choose|w: Seq<char>| #[trigger] maps.query_assets().contains_key(w) && maps.query_assets()[w] == maps.next();
        assert(maps.query_assets()[w] < maps.next());
    }
}

/// A cached entry is served as it is exactly when it is finished and not stale (ready,
/// source, override or directory); it is evicted exactly when stale (expired, failed,
/// cancelled, volatile); and only an asset whose evaluation has not finished is computed.
pub proof fn law_finished_entry_is_served(status: Status)
    ensures
        spec_cached_step(status) == CachedStep::Serve <==> (spec_is_finished(status) && !spec_is_stale_terminal(status)),
        spec_cached_step(status) == CachedStep::Serve <==> (status == Status::Ready || status == Status::Source
            || status == Status::Override || status == Status::Directory),
        spec_cached_step(status) == CachedStep::Evicted <==> (status == Status::Expired || status == Status::Error
            || status == Status::Cancelled || status == Status::Volatile),
        spec_cached_step(status) == CachedStep::Run <==> !spec_is_finished(status),
{
}

/// A cached entry is stale exactly when it is expired, failed, cancelled or volatile: each of
/// those is finished, and none is ever served again.
pub proof fn law_stale_entries(status: Status)
    ensures
        spec_is_stale_terminal(status) <==> (status == Status::Expired || status == Status::Error
            || status == Status::Cancelled || status == Status::Volatile),
        spec_is_stale_terminal(status) ==> spec_is_finished(status),
{
}

} // verus!
