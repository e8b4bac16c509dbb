//! The state-store capability and its default backend: named buckets of
//! keys and values, kept in memory in a `dashmap::DashMap`.

use vstd::prelude::*;
use vstd::string::StringExecFns;
use std::collections::HashMap;
use crate::host::{Backend, ConfigError, EnvView, Environment, FromEnv};
use crate::wire::{bytes_view, copy_bytes};

verus! {

/// `dashmap::DashMap`, the map that holds the buckets.
#[verifier::external_type_specification]
#[verifier::external_body]
#[verifier::reject_recursive_types(K)]
#[verifier::reject_recursive_types(V)]
#[verifier::reject_recursive_types(S)]
pub struct ExDashMap<K, V, S>(dashmap::DashMap<K, V, S>);

/// The keys and values of a bucket.
pub type BucketView = Map<Seq<char>, Seq<u8>>;

/// The buckets of a store, by name.
pub type StoreView = Map<Seq<char>, BucketView>;

/// What a store holds: its buckets by name, each with its keys and values.
pub uninterp spec fn store_contents(
    store: dashmap::DashMap<String, HashMap<String, Vec<u8>>>,
) -> StoreView;

/// A store without buckets.
pub open spec fn no_buckets() -> StoreView {
    Map::empty()
}

/// The bucket called `name`, or an empty one where the store has none.
pub open spec fn bucket_of(store: StoreView, name: Seq<char>) -> BucketView {
    if store.dom().contains(name) {
        store[name]
    } else {
        Map::empty()
    }
}

/// The value under `key` in the bucket called `name`, if there is one.
pub open spec fn value_in(store: StoreView, name: Seq<char>, key: Seq<char>) -> Option<Seq<u8>> {
    if bucket_of(store, name).dom().contains(key) {
        Some(bucket_of(store, name)[key])
    } else {
        None
    }
}

/// Calls `dashmap::DashMap::new`: a store without buckets.
#[verifier::external_body]
fn new_store() -> (r: dashmap::DashMap<String, HashMap<String, Vec<u8>>>)
    ensures
        store_contents(r) == no_buckets(),
{
    dashmap::DashMap::new()
}

/// Calls `dashmap::DashMap::entry` and `or_default` on the entry: a bucket
/// that is missing is added empty, one that is there stays as it is.
#[verifier::external_body]
fn ensure_bucket(store: &mut dashmap::DashMap<String, HashMap<String, Vec<u8>>>, name: String)
    ensures
        store_contents(*final(store)) == store_contents(*old(store)).insert(
            name@,
            bucket_of(store_contents(*old(store)), name@),
        ),
{
    store.entry(name).or_default();
}

/// Calls `dashmap::DashMap::get` and `HashMap::get` on the bucket: a copy of
/// the value under `key`, where bucket and key are there.
#[verifier::external_body]
fn bucket_get(
    store: &dashmap::DashMap<String, HashMap<String, Vec<u8>>>,
    name: &str,
    key: &str,
) -> (r: Option<Vec<u8>>)
    ensures
        bytes_view(r) == value_in(store_contents(*store), name@, key@),
{
    store.get(name).and_then(|bucket| bucket.get(key).cloned())
}

/// Calls `dashmap::DashMap::entry`, `or_default` on the entry and
/// `HashMap::insert` on the bucket: the value stands under `key`, in a
/// bucket that is added where it was missing. The value that stood there
/// before comes back.
#[verifier::external_body]
fn bucket_insert(
    store: &mut dashmap::DashMap<String, HashMap<String, Vec<u8>>>,
    name: String,
    key: String,
    value: Vec<u8>,
) -> (previous: Option<Vec<u8>>)
    ensures
        store_contents(*final(store)) == store_contents(*old(store)).insert(
            name@,
            bucket_of(store_contents(*old(store)), name@).insert(key@, value@),
        ),
        bytes_view(previous) == value_in(store_contents(*old(store)), name@, key@),
{
    store.entry(name).or_default().insert(key, value)
}

/// Calls `dashmap::DashMap::get_mut` and `HashMap::remove` on the bucket:
/// the key leaves the bucket, where bucket and key are there.
#[verifier::external_body]
fn bucket_remove(
    store: &mut dashmap::DashMap<String, HashMap<String, Vec<u8>>>,
    name: &str,
    key: &str,
)
    ensures
        store_contents(*final(store)) == if store_contents(*old(store)).dom().contains(name@) {
            store_contents(*old(store)).insert(
                name@,
                store_contents(*old(store))[name@].remove(key@),
            )
        } else {
            store_contents(*old(store))
        },
{
    store.get_mut(name).map(|mut bucket| bucket.remove(key));
}

/// Calls `dashmap::DashMap::get` and `HashMap::contains_key` on the bucket.
#[verifier::external_body]
fn bucket_has(
    store: &dashmap::DashMap<String, HashMap<String, Vec<u8>>>,
    name: &str,
    key: &str,
) -> (r: bool)
    ensures
        r == value_in(store_contents(*store), name@, key@) is Some,
{
    store.get(name).is_some_and(|bucket| bucket.contains_key(key))
}

/// Calls `dashmap::DashMap::get` and `HashMap::keys` on the bucket: the
/// keys of the bucket, each once, in no order that can be told beforehand.
#[verifier::external_body]
fn bucket_keys(store: &dashmap::DashMap<String, HashMap<String, Vec<u8>>>, name: &str) -> (r: Vec<
    String,
>)
    ensures
        forall|key: Seq<char>|
            bucket_of(store_contents(*store), name@).dom().contains(key) <==> exists|i: int|
                0 <= i < r@.len() && (#[trigger] r@[i])@ == key,
        forall|i: int, j: int| 0 <= i < j < r@.len() ==> r@[i]@ != r@[j]@,
{
    store.get(name).map(|bucket| bucket.keys().cloned().collect()).unwrap_or_default()
}

/// How the state store is reached. The default backend needs nothing.
#[derive(Debug, Clone, Copy, Default, PartialEq, Eq, Structural)]
pub struct ConnectOptions;

impl FromEnv for ConnectOptions {
    open spec fn loaded(env: EnvView, r: Result<ConnectOptions, ConfigError>) -> bool {
        r == Ok::<ConnectOptions, ConfigError>(ConnectOptions)
    }

    fn from_env(env: &Environment) -> (r: Result<ConnectOptions, ConfigError>) {
        Ok(ConnectOptions)
    }
}

/// The default backend of the state store: buckets in memory. Nothing
/// outlasts the process.
pub struct KeyValueDefault {
    store: dashmap::DashMap<String, HashMap<String, Vec<u8>>>,
}

impl View for KeyValueDefault {
    type V = StoreView;

    closed spec fn view(&self) -> StoreView {
        store_contents(self.store)
    }
}

impl Backend for KeyValueDefault {
    type ConnectOptions = ConnectOptions;

    open spec fn connected(options: ConnectOptions, r: Result<KeyValueDefault, ConfigError>) -> bool {
        r is Ok && r->Ok_0@ == no_buckets()
    }

    fn connect_with(options: ConnectOptions) -> (r: Result<KeyValueDefault, ConfigError>) {
        Ok(KeyValueDefault { store: new_store() })
    }
}

impl KeyValueDefault {
    /// Opens the bucket called `identifier`: it is created empty where the
    /// store has none of that name, and left alone where it has one.
    pub fn open_bucket(&mut self, identifier: &str)
        ensures
            final(self)@ == old(self)@.insert(identifier@, bucket_of(old(self)@, identifier@)),
    {
        ensure_bucket(&mut self.store, String::from_str(identifier));
    }

    /// The value under `key` in `bucket`. A missing key gives `None`.
    pub fn get_in(&self, bucket: &str, key: &str) -> (r: Option<Vec<u8>>)
        ensures
            bytes_view(r) == value_in(self@, bucket@, key@),
    {
        bucket_get(&self.store, bucket, key)
    }

    /// Puts `value` under `key` in `bucket` and hands back the value that
    /// stood there before. The time to live is a hint that this backend
    /// does not act on; any is accepted.
    pub fn set_in(
        &mut self,
        bucket: &str,
        key: &str,
        value: &Vec<u8>,
        ttl_secs: Option<u64>,
    ) -> (r:
        Option<Vec<u8>>)
        ensures
            final(self)@ == old(self)@.insert(
                bucket@,
                bucket_of(old(self)@, bucket@).insert(key@, value@),
            ),
            bytes_view(r) == value_in(old(self)@, bucket@, key@),
    {
        bucket_insert(
            &mut self.store,
            String::from_str(bucket),
            String::from_str(key),
            copy_bytes(value),
        )
    }

    /// Removes `key` from `bucket`. A missing key or bucket changes nothing.
    pub fn delete_in(&mut self, bucket: &str, key: &str)
        ensures
            value_in(final(self)@, bucket@, key@) is None,
            final(self)@.dom() == old(self)@.dom(),
            forall|b: Seq<char>, k: Seq<char>|
                !(b == bucket@ && k == key@) ==> value_in(final(self)@, b, k) == value_in(
                    old(self)@,
                    b,
                    k,
                ),
    {
        bucket_remove(&mut self.store, bucket, key);
        proof {
            assert(final(self)@.dom() =~= old(self)@.dom());
        }
    }

    /// Whether `bucket` holds `key`.
    pub fn has_key(&self, bucket: &str, key: &str) -> (r: bool)
        ensures
            r == value_in(self@, bucket@, key@) is Some,
    {
        bucket_has(&self.store, bucket, key)
    }

    /// The keys of `bucket`, each once. Their order is not fixed.
    pub fn keys_of(&self, bucket: &str) -> (r: Vec<String>)
        ensures
            forall|key: Seq<char>|
                value_in(self@, bucket@, key) is Some <==> exists|i: int|
                    0 <= i < r@.len() && (#[trigger] r@[i])@ == key,
            forall|i: int, j: int| 0 <= i < j < r@.len() ==> r@[i]@ != r@[j]@,
    {
        bucket_keys(&self.store, bucket)
    }
}

/// Why the state store could not answer.
#[derive(Debug, Clone, PartialEq, Eq)]
pub enum StoreError {
    /// The backend failed; the text says how.
    Backend(String),
}

/// The state that a guest keeps between calls: values under keys.
pub trait StateStore {
    /// The keys and values of the state. An implementation that does not
    /// say leaves them open.
    open spec fn state(&self) -> BucketView {
        arbitrary()
    }

    /// The value under `key`. A missing key gives `None`, not an error.
    fn get(&self, key: &str) -> (r: Result<Option<Vec<u8>>, StoreError>)
        ensures
            r is Ok ==> bytes_view(r->Ok_0) == (if self.state().dom().contains(key@) {
                Some(self.state()[key@])
            } else {
                None
            }),
    ;

    /// Puts `value` under `key` and hands back the value that stood there
    /// before. Where it fails the state is as it was.
    fn set(&mut self, key: &str, value: &Vec<u8>, ttl_secs: Option<u64>) -> (r: Result<
        Option<Vec<u8>>,
        StoreError,
    >)
        ensures
            r is Ok ==> final(self).state() == old(self).state().insert(key@, value@)
                && bytes_view(r->Ok_0) == (if old(self).state().dom().contains(key@) {
                Some(old(self).state()[key@])
            } else {
                None
            }),
            r is Err ==> final(self).state() == old(self).state(),
    ;

    /// Removes `key`. A missing key changes nothing. Where it fails the
    /// state is as it was.
    fn delete(&mut self, key: &str) -> (r: Result<(), StoreError>)
        ensures
            r is Ok ==> final(self).state() == old(self).state().remove(key@),
            r is Err ==> final(self).state() == old(self).state(),
    ;
}

/// The name of the bucket that holds the state of the guests.
pub open spec fn cache_bucket() -> Seq<char> {
    "cache"@
}

impl StateStore for KeyValueDefault {
    /// The state is the bucket called `cache`.
    open spec fn state(&self) -> BucketView {
        bucket_of(self@, cache_bucket())
    }

    fn get(&self, key: &str) -> (r: Result<Option<Vec<u8>>, StoreError>)
        ensures
            r is Ok,
    {
        Ok(self.get_in("cache", key))
    }

    fn set(&mut self, key: &str, value: &Vec<u8>, ttl_secs: Option<u64>) -> (r: Result<
        Option<Vec<u8>>,
        StoreError,
    >)
        ensures
            r is Ok,
    {
        Ok(self.set_in("cache", key, value, ttl_secs))
    }

    fn delete(&mut self, key: &str) -> (r: Result<(), StoreError>)
        ensures
            r is Ok,
    {
        self.delete_in("cache", key);
        proof {
            let before = old(self).state();
            let after = final(self).state();
            assert forall|k: Seq<char>| #[trigger] after.dom().contains(k) == before.remove(key@).dom().contains(k) by {
                if k != key@ {
                    assert(value_in(final(self)@, cache_bucket(), k) == value_in(old(self)@, cache_bucket(), k));
                } else {
                    assert(value_in(final(self)@, cache_bucket(), key@) is None);
                }
            }
            assert forall|k: Seq<char>| after.dom().contains(k) implies #[trigger] after[k] == before.remove(key@)[k] by {
                assert(value_in(final(self)@, cache_bucket(), k) == value_in(old(self)@, cache_bucket(), k));
            }
            assert(after =~= before.remove(key@));
        }
        Ok(())
    }
}

} // verus!
