//! The registry of the tracked keys: for each key the handle through which
//! its snapshot is read and replaced.
//!
//! A key is registered when it is first asked for, with an empty snapshot,
//! and whoever asked is told to start the key's refresh pipeline. Later
//! lookups hand out a handle to the same snapshot and start nothing, so a
//! key has one pipeline at most. A key is registered through exclusive
//! access to the store; what the readers and the pipeline of a key share is
//! the handle, so a new snapshot is published without touching the store.

use crate::snapshot::Snapshot;
use arcshift::ArcShift;
use dashmap::DashMap;
use vstd::prelude::*;

verus! {

/// The map of `dashmap`; what it holds is seen through `registered` only.
#[verifier::external_type_specification]
#[verifier::external_body]
#[verifier::reject_recursive_types(K)]
#[verifier::reject_recursive_types(V)]
#[verifier::reject_recursive_types(S)]
pub struct ExDashMap<K, V, S>(DashMap<K, V, S>);

/// The handle of `arcshift` to a value that can be replaced while others
/// read it; nothing is known of what it points to.
#[verifier::external_type_specification]
#[verifier::external_body]
#[verifier::reject_recursive_types(T)]
pub struct ExArcShift<T: ?Sized>(ArcShift<T>);

/// The keys under which a map holds a handle.
pub uninterp spec fn registered(map: DashMap<isize, ArcShift<Snapshot>>) -> Set<int>;

/// The registry of the tracked keys, around which the service is built.
pub struct Svc {
    data: DashMap<isize, ArcShift<Snapshot>>,
}

/// A map without keys, from `DashMap::new`.
#[verifier::external_body]
fn empty_map() -> (map: DashMap<isize, ArcShift<Snapshot>>)
    ensures
        registered(map) == Set::<int>::empty(),
{
    DashMap::new()
}

/// A copy of the handle that the map holds under `key`, from `DashMap::get`
/// and the handle's `clone`; `None` where the key is not in the map.
#[verifier::external_body]
fn find(map: &DashMap<isize, ArcShift<Snapshot>>, key: isize) -> (res: Option<ArcShift<Snapshot>>)
    ensures
        res is Some <==> registered(*map).contains(key as int),
{
    map.get(&key).map(|found| found.clone())
}

/// Makes a handle to `snapshot` with `ArcShift::new`, puts a copy of it
/// into the map under `key` with `DashMap::insert`, which keeps the other
/// keys, and hands the handle out. It is for a key that the map does not
/// hold: the handle of a key that is registered is never replaced.
#[verifier::external_body]
fn register(map: &mut DashMap<isize, ArcShift<Snapshot>>, key: isize, snapshot: Snapshot) -> (handle:
    ArcShift<Snapshot>)
    requires
        !registered(*old(map)).contains(key as int),
    ensures
        registered(*final(map)) == registered(*old(map)).insert(key as int),
{
    let handle = ArcShift::new(snapshot);
    map.insert(key, handle.clone());
    handle
}

impl Svc {
    /// The keys that are registered.
    pub closed spec fn keys(&self) -> Set<int> {
        registered(self.data)
    }

    /// A store without keys.
    pub fn new() -> (store: Svc)
        ensures
            store.keys() == Set::<int>::empty(),
    {
        Svc { data: empty_map() }
    }

    /// A handle to the snapshot of `key`, and whether the key was
    /// registered by this call, which is when its pipeline is to be
    /// started. A key that was not known is registered with an empty
    /// snapshot; the keys that were known stay.
    pub fn get(&mut self, key: isize) -> (res: (ArcShift<Snapshot>, bool))
        ensures
            final(self).keys() == old(self).keys().insert(key as int),
            res.1 == !old(self).keys().contains(key as int),
    {
        match find(&self.data, key) {
            Some(handle) => {
                assert(self.keys().insert(key as int) =~= self.keys());
                (handle, false)
            },
            None => {
                let handle = register(&mut self.data, key, Snapshot::new());
                (handle, true)
            },
        }
    }

    /// A handle to the snapshot of `key` where the key is registered;
    /// nothing is registered or started by this.
    pub fn peek(&self, key: isize) -> (res: Option<ArcShift<Snapshot>>)
        ensures
            res is Some <==> self.keys().contains(key as int),
    {
        find(&self.data, key)
    }
}

} // verus!
