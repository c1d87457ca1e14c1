//! Trusted boundary to the `kvs` flash key/value store.
//!
//! The store keeps its data in a byte-addressed flash image; this module
//! holds it behind [`FlashKv`] and gives every operation the logic needs a
//! wrapper whose contract states, over the abstract map [`kv_contents`]
//! and the value-region addresses [`kv_val_addr`], what the `kvs` source
//! shows the call does.  Everything above this module is verified against
//! these contracts.

use vstd::prelude::*;

use kvs::adapters::StoreAdapter;

use crate::config::{FLASH_SIZE, KVS_BUCKETS, KVS_MAGIC, KVS_MAX_HOPS, KVS_NONCE, KVS_SLOTS};
use crate::err::FxError;

verus! {

/// The flash key/value store: a `kvs::KVStore` over an in-memory flash
/// image.  Opaque to the verifier; all knowledge of it flows through the
/// wrapper contracts below.
#[verifier::external_body]
pub struct FlashKv {
    store: kvs::KVStore<kvs::adapters::ram::MemoryAdapter<FLASH_SIZE>, KVS_BUCKETS, KVS_SLOTS>,
}

/// The association the store currently holds: each stored key mapped to
/// its value bytes.
pub uninterp spec fn kv_contents(kv: &FlashKv) -> Map<Seq<u8>, Seq<u8>>;

/// The flash address at which the value region of `key` starts.
pub uninterp spec fn kv_val_addr(kv: &FlashKv, key: Seq<u8>) -> int;

/// Whether the store's bucket probe and arena allocator would place a
/// fresh record of `key` plus `val_len` value bytes: exactly what
/// `alloc_bucket` decides, a deterministic function of the store state
/// and the record's size.
pub uninterp spec fn kv_room(kv: &FlashKv, key: Seq<u8>, val_len: int) -> bool;

/// The value regions of all keys other than `except` sit where they sat.
pub open spec fn same_addrs_except(pre: &FlashKv, post: &FlashKv, except: Seq<u8>) -> bool {
    forall|k: Seq<u8>| k != except ==> #[trigger] kv_val_addr(post, k) == kv_val_addr(pre, k)
}

/// Every value region sits where it sat.
pub open spec fn same_addrs(pre: &FlashKv, post: &FlashKv) -> bool {
    forall|k: Seq<u8>| #[trigger] kv_val_addr(post, k) == kv_val_addr(pre, k)
}

/// `v` with the range starting at `off` replaced by `p`.
pub open spec fn splice(v: Seq<u8>, off: int, p: Seq<u8>) -> Seq<u8>
    recommends
        0 <= off,
        off + p.len() <= v.len(),
{
    v.subrange(0, off) + p + v.subrange(off + p.len(), v.len() as int)
}

/// `k` is strictly longer than `p` and starts with it.
pub open spec fn has_prefix(k: Seq<u8>, p: Seq<u8>) -> bool {
    k.len() > p.len() && k.subrange(0, p.len() as int) == p
}

/// The keys of `m` that a prefix scan for `p` reports.
pub open spec fn prefixed_keys(m: Map<Seq<u8>, Seq<u8>>, p: Seq<u8>) -> Set<Seq<u8>> {
    m.dom().filter(|k: Seq<u8>| has_prefix(k, p))
}

/// The views of a vector of byte vectors.
pub open spec fn seq_views(s: Seq<Vec<u8>>) -> Seq<Seq<u8>> {
    s.map_values(|v: Vec<u8>| v@)
}

/// The association of a store that holds nothing.
pub open spec fn kv_empty() -> Map<Seq<u8>, Seq<u8>> {
    Map::empty()
}

impl FlashKv {
    /// Relies on `kvs::KVStore::open` with `create_new` on a zeroed
    /// in-memory adapter: the header never matches, so the store is
    /// formatted and holds no keys.  Every bucket is empty and the value
    /// arena exceeds the largest admissible record, so the fresh store
    /// has room for any one record.
    #[verifier::external_body]
    pub(crate) fn open_empty() -> (r: FlashKv)
        ensures
            kv_contents(&r) == kv_empty(),
            forall|key: Seq<u8>, len: int|
                1 <= key.len() <= 255 && 0 <= len <= 65535 ==> #[trigger] kv_room(&r, key, len),
    {
        let cfg = kvs::StoreConfig::new(KVS_MAGIC, KVS_MAX_HOPS).nonce(KVS_NONCE);
        let adapter = kvs::adapters::ram::MemoryAdapter::<FLASH_SIZE>::default();
        let store = kvs::KVStore::open(adapter, cfg, true).expect("formatting a fresh store");
        FlashKv { store }
    }

    /// Relies on `kvs::KVStore::insert` called on an absent key: the
    /// probe walk takes one free bucket, so on success the key maps to
    /// the given bytes and no other binding or value region moves; every
    /// error path returns before the flash image changes.  Callers
    /// remove the key first: a key re-inserted while still present could
    /// settle in an earlier bucket of its probe chain and leave a stale
    /// twin behind.
    #[verifier::external_body]
    pub(crate) fn insert(&mut self, key: &[u8], val: &[u8]) -> (r: Result<(), FxError>)
        requires
            1 <= key@.len() <= 255,
            val@.len() < 65536,
            !kv_contents(old(self)).dom().contains(key@),
        ensures
            r is Ok <==> kv_room(old(self), key@, val@.len() as int),
            r is Ok ==> kv_contents(final(self)) == kv_contents(old(self)).insert(key@, val@),
            r is Ok ==> same_addrs_except(old(self), final(self), key@),
            r is Err ==> kv_contents(final(self)) == kv_contents(old(self)),
            r is Err ==> same_addrs(old(self), final(self)),
            r matches Err(e) ==> e == FxError::StoreFull,
    {
        match self.store.insert(key, val) {
            Ok(_) => Ok(()),
            Err(kvs::Error::IndexOverflow) | Err(kvs::Error::StoreOverflow) => {
                Err(FxError::StoreFull)
            }
            Err(kvs::Error::ValueOverflow) | Err(kvs::Error::KeyOverflow) => {
                Err(FxError::StoreInvalidLength)
            }
            Err(_) => Err(FxError::BusIo),
        }
    }

    /// Relies on `kvs::KVStore::alloc` without a fill byte, called on an
    /// absent key: on success the key maps to a fresh region of exactly
    /// `val_len` bytes whose contents are unspecified; other bindings
    /// and regions stay put, and every error path returns before the
    /// flash image changes.  Callers remove the key first, as for
    /// `insert`.
    #[verifier::external_body]
    pub(crate) fn reserve(&mut self, key: &[u8], val_len: usize) -> (r: Result<(), FxError>)
        requires
            1 <= key@.len() <= 255,
            val_len < 65536,
            !kv_contents(old(self)).dom().contains(key@),
        ensures
            r is Ok <==> kv_room(old(self), key@, val_len as int),
            r is Ok ==> kv_contents(final(self)).dom() == kv_contents(old(self)).dom().insert(
                key@,
            ),
            r is Ok ==> kv_contents(final(self))[key@].len() == val_len,
            r is Ok ==> forall|k: Seq<u8>|
                k != key@ && kv_contents(old(self)).dom().contains(k) ==> #[trigger] kv_contents(
                    final(self),
                )[k] == kv_contents(old(self))[k],
            r is Ok ==> same_addrs_except(old(self), final(self), key@),
            r is Err ==> kv_contents(final(self)) == kv_contents(old(self)),
            r is Err ==> same_addrs(old(self), final(self)),
            r matches Err(e) ==> e == FxError::StoreFull,
    {
        match self.store.alloc(key, val_len, None) {
            Ok(_) => Ok(()),
            Err(kvs::Error::IndexOverflow) | Err(kvs::Error::StoreOverflow) => {
                Err(FxError::StoreFull)
            }
            Err(kvs::Error::ValueOverflow) | Err(kvs::Error::KeyOverflow) => {
                Err(FxError::StoreInvalidLength)
            }
            Err(_) => Err(FxError::BusIo),
        }
    }

    /// Relies on `kvs::KVStore::patch` when the patch lies inside the
    /// existing value: the stored bytes are overwritten in place, nothing
    /// moves, and a missing key is reported before anything changes.
    #[verifier::external_body]
    pub(crate) fn patch(&mut self, key: &[u8], offset: usize, patch: &[u8]) -> (r: Result<(), FxError>)
        requires
            1 <= key@.len() <= 255,
            kv_contents(old(self)).dom().contains(key@) ==> offset + patch@.len() <= kv_contents(
                old(self),
            )[key@].len(),
        ensures
            kv_contents(old(self)).dom().contains(key@) ==> r is Ok && kv_contents(final(self))
                == kv_contents(old(self)).insert(
                key@,
                splice(kv_contents(old(self))[key@], offset as int, patch@),
            ),
            !kv_contents(old(self)).dom().contains(key@) ==> (r matches Err(e) && e
                == FxError::StoreKeyNotFound) && kv_contents(final(self)) == kv_contents(
                old(self),
            ),
            same_addrs(old(self), final(self)),
    {
        match self.store.patch(key, offset, patch) {
            Ok(_) => Ok(()),
            Err(kvs::Error::KeyNotFound) => Err(FxError::StoreKeyNotFound),
            Err(kvs::Error::InvalidPatchOffset) | Err(kvs::Error::ValueOverflow) => {
                Err(FxError::StoreInvalidLength)
            }
            Err(_) => Err(FxError::BusIo),
        }
    }

    /// Relies on `kvs::KVStore::remove`: the key's bucket is cleared
    /// (removing an absent key also succeeds) and the regions of the
    /// remaining keys stay put.  Over the in-memory adapter the call
    /// cannot fail: its bucket write is in bounds, an absent key returns
    /// without writing, and the allocator index is rebuilt only at the
    /// first mutation of a freshly formatted store, where it cannot
    /// overflow.  Freeing a record only empties a bucket and grows or
    /// adds a free slot, so any record that had room still has room.
    #[verifier::external_body]
    pub(crate) fn remove(&mut self, key: &[u8]) -> (r: Result<(), FxError>)
        requires
            1 <= key@.len() <= 255,
        ensures
            r is Ok,
            kv_contents(final(self)) == kv_contents(old(self)).remove(key@),
            same_addrs_except(old(self), final(self), key@),
            forall|k: Seq<u8>, l: int|
                kv_room(old(self), k, l) ==> #[trigger] kv_room(final(self), k, l),
    {
        match self.store.remove(key) {
            Ok(()) => Ok(()),
            Err(kvs::Error::IndexOverflow) | Err(kvs::Error::StoreOverflow) => {
                Err(FxError::StoreFull)
            }
            Err(_) => Err(FxError::BusIo),
        }
    }

    /// Relies on `kvs::KVStore::load`: for a stored key it reports the
    /// value's length and copies `min(buf.len(), value.len())` value
    /// bytes into the front of `buf`, leaving the tail untouched; a
    /// missing key is reported with `buf` unchanged.  Only a scratch
    /// buffer of the store changes.
    #[verifier::external_body]
    pub(crate) fn load(&mut self, key: &[u8], buf: &mut Vec<u8>) -> (r: Result<usize, FxError>)
        requires
            1 <= key@.len() <= 255,
            old(buf)@.len() <= 65535,
        ensures
            kv_contents(final(self)) == kv_contents(old(self)),
            same_addrs(old(self), final(self)),
            kv_contents(old(self)).dom().contains(key@) ==> (r matches Ok(l) && l
                == kv_contents(old(self))[key@].len() && final(buf)@ == (
            if kv_contents(old(self))[key@].len() >= old(buf)@.len() {
                kv_contents(old(self))[key@].subrange(0, old(buf)@.len() as int)
            } else {
                kv_contents(old(self))[key@] + old(buf)@.subrange(
                    kv_contents(old(self))[key@].len() as int,
                    old(buf)@.len() as int,
                )
            })),
            !kv_contents(old(self)).dom().contains(key@) ==> (r matches Err(e) && e
                == FxError::StoreKeyNotFound) && final(buf)@ == old(buf)@,
    {
        match self.store.load(key, buf.as_mut_slice()) {
            Ok(bucket) => Ok(bucket.val_len()),
            Err(kvs::Error::KeyNotFound) => Err(FxError::StoreKeyNotFound),
            Err(kvs::Error::ValueOverflow) => Err(FxError::StoreInvalidLength),
            Err(_) => Err(FxError::BusIo),
        }
    }

    /// Relies on `kvs::KVStore::lookup` and `Bucket::val_address`: for a
    /// stored key it reports the flash address and length of the value
    /// region, which lies inside the flash image; a missing key is
    /// reported.  Only a scratch buffer of the store changes.
    #[verifier::external_body]
    pub(crate) fn lookup(&mut self, key: &[u8]) -> (r: Result<(usize, usize), FxError>)
        requires
            1 <= key@.len() <= 255,
        ensures
            kv_contents(final(self)) == kv_contents(old(self)),
            same_addrs(old(self), final(self)),
            kv_contents(old(self)).dom().contains(key@) ==> (r matches Ok(p) && p.0
                == kv_val_addr(old(self), key@) && p.1 == kv_contents(old(self))[key@].len() && p.0
                + p.1 <= FLASH_SIZE),
            !kv_contents(old(self)).dom().contains(key@) ==> (r matches Err(e) && e
                == FxError::StoreKeyNotFound),
    {
        match self.store.lookup(key) {
            Ok(bucket) => Ok((bucket.val_address(), bucket.val_len())),
            Err(kvs::Error::KeyNotFound) => Err(FxError::StoreKeyNotFound),
            Err(_) => Err(FxError::BusIo),
        }
    }

    /// Relies on `MemoryAdapter::read` through `KVStore::adapter`: an
    /// in-bounds read succeeds and, when the range lies inside the value
    /// region of a stored key, yields that slice of the stored bytes; an
    /// out-of-bounds read fails with the buffer unchanged.  The store
    /// itself does not change.  The adapter sums `addr` and the buffer
    /// length before its bounds check, so the sum must not wrap.
    #[verifier::external_body]
    pub(crate) fn read_raw(&mut self, addr: usize, buf: &mut Vec<u8>) -> (r: Result<(), FxError>)
        requires
            addr + old(buf)@.len() <= usize::MAX,
        ensures
            kv_contents(final(self)) == kv_contents(old(self)),
            same_addrs(old(self), final(self)),
            final(buf)@.len() == old(buf)@.len(),
            addr + old(buf)@.len() <= FLASH_SIZE ==> r is Ok,
            addr + old(buf)@.len() > FLASH_SIZE ==> (r matches Err(e) && e == FxError::BusIo)
                && final(buf)@ == old(buf)@,
            forall|k: Seq<u8>|
                (#[trigger] kv_contents(old(self)).dom().contains(k) && kv_val_addr(old(self), k)
                    <= addr && addr + old(buf)@.len() <= kv_val_addr(old(self), k) + kv_contents(
                    old(self),
                )[k].len()) ==> final(buf)@ == kv_contents(old(self))[k].subrange(
                    addr - kv_val_addr(old(self), k),
                    addr - kv_val_addr(old(self), k) + old(buf)@.len(),
                ),
    {
        match self.store.adapter().read(addr, buf.as_mut_slice()) {
            Ok(()) => Ok(()),
            Err(()) => Err(FxError::BusIo),
        }
    }

    /// Relies on `kvs::KVStore::keys_with_prefix`: the bucket scan
    /// reports, once each and in scan order, exactly the stored keys that
    /// are strictly longer than the prefix and start with it.  A key
    /// occupies one bucket at a time (see `insert`), so none is reported
    /// twice.  Only a scratch buffer of the store changes.
    #[verifier::external_body]
    pub(crate) fn keys_with_prefix(&mut self, prefix: &[u8]) -> (r: Vec<Vec<u8>>)
        ensures
            kv_contents(final(self)) == kv_contents(old(self)),
            same_addrs(old(self), final(self)),
            seq_views(r@).no_duplicates(),
            seq_views(r@).to_set() == prefixed_keys(kv_contents(old(self)), prefix@),
    {
        let mut out: Vec<Vec<u8>> = Vec::new();
        for key_ref in self.store.keys_with_prefix(prefix) {
            out.push(key_ref.key().to_vec());
        }
        out
    }
}

} // verus!
