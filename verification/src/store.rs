//! Typed asset store over the flash key/value store.
//!
//! Three kinds of records share the store, told apart by two-byte keys:
//! `['m', reg]` holds a 4-byte register slot, `['s', id]` the metadata of
//! sprite `id` and `['b', id]` its raw bitmap blob.  A bounded LRU cache
//! keeps resolved sprite descriptors; any sprite mutation clears it.

use vstd::prelude::*;
use vstd::map::*;
use vstd::assert_seqs_equal;
use vstd::assert_sets_equal;

use crate::config::{FLASH_SIZE, KVS_MAX_VALUE, SPRITE_CACHE_SIZE};
use crate::err::FxError;
use crate::kv::{
    has_prefix, kv_contents, kv_empty, kv_room, kv_val_addr, prefixed_keys, same_addrs,
    same_addrs_except, seq_views, splice, FlashKv,
};

verus! {

/// Width and height of a glyph, in pixels.
#[derive(Clone, Copy, Debug, PartialEq, Eq, Structural)]
pub struct Size {
    pub width: u8,
    pub height: u8,
}

/// Metadata of a sprite: how many glyphs it holds and their common size.
#[derive(Clone, Copy, Debug, PartialEq, Eq, Structural)]
pub struct SpriteInfo {
    pub glyphs: u8,
    pub glyph_size: Size,
}

impl SpriteInfo {
    /// Bytes of one glyph: one bit per pixel, row-major.
    pub open spec fn spec_glyph_len(self) -> int {
        (self.glyph_size.width * self.glyph_size.height) / 8
    }

    /// Bytes of the whole bitmap blob.
    pub open spec fn spec_bitmap_len(self) -> int {
        self.spec_glyph_len() * self.glyphs
    }

    /// A well-formed metadata record: at least one glyph, positive
    /// dimensions, and a pixel count that fills whole bytes.
    pub open spec fn spec_valid(self) -> bool {
        &&& self.glyphs >= 1
        &&& self.glyph_size.width >= 1
        &&& self.glyph_size.height >= 1
        &&& (self.glyph_size.width * self.glyph_size.height) % 8 == 0
    }

    /// The derived lengths fit comfortably in a machine word.
    pub proof fn lemma_len_bounds(self)
        ensures
            0 <= self.spec_glyph_len() <= 8128,
            0 <= self.spec_bitmap_len() <= 2072640,
    {
        let w = self.glyph_size.width as int;
        let h = self.glyph_size.height as int;
        let g = self.glyphs as int;
        assert(0 <= w * h <= 65025) by (nonlinear_arith)
            requires
                0 <= w <= 255,
                0 <= h <= 255,
        ;
        assert(0 <= self.spec_glyph_len() * g <= 8128 * 255) by (nonlinear_arith)
            requires
                0 <= self.spec_glyph_len() <= 8128,
                0 <= g <= 255,
        ;
    }

    /// Bytes of one glyph.
    pub fn glyph_len(&self) -> (r: usize)
        ensures
            r == self.spec_glyph_len(),
    {
        proof {
            self.lemma_len_bounds();
            let w = self.glyph_size.width as int;
            let h = self.glyph_size.height as int;
            assert(0 <= w * h <= 65025) by (nonlinear_arith)
                requires
                    0 <= w <= 255,
                    0 <= h <= 255,
            ;
        }
        (self.glyph_size.width as usize) * (self.glyph_size.height as usize) / 8
    }

    /// Bytes of the whole bitmap blob.
    pub fn bitmap_len(&self) -> (r: usize)
        ensures
            r == self.spec_bitmap_len(),
    {
        proof {
            self.lemma_len_bounds();
        }
        self.glyph_len() * (self.glyphs as usize)
    }
}

/// A resolved sprite descriptor: identifier, metadata and the flash
/// address at which the bitmap blob starts.  Never persisted as such; it
/// is rebuilt from the metadata record and the blob's current location.
#[derive(Clone, Copy, Debug, PartialEq, Eq, Structural)]
pub struct Sprite {
    pub sprite_id: u8,
    pub info: SpriteInfo,
    pub addr: usize,
}

/// Key tag of a register slot: the letter `m`.
pub const TAG_REG: u8 = 109;

/// Key tag of a sprite metadata record: the letter `s`.
pub const TAG_META: u8 = 115;

/// Key tag of a sprite bitmap blob: the letter `b`.
pub const TAG_BITMAP: u8 = 98;

/// Store key of register slot `reg`.
pub open spec fn reg_key(reg: u8) -> Seq<u8> {
    seq![TAG_REG, reg]
}

/// Store key of the metadata record of sprite `id`.
pub open spec fn meta_key(id: u8) -> Seq<u8> {
    seq![TAG_META, id]
}

/// Store key of the bitmap blob of sprite `id`.
pub open spec fn bitmap_key(id: u8) -> Seq<u8> {
    seq![TAG_BITMAP, id]
}

/// `v` truncated or zero-padded to exactly 4 bytes.
pub open spec fn pad4(v: Seq<u8>) -> Seq<u8> {
    if v.len() >= 4 {
        v.subrange(0, 4)
    } else {
        v + Seq::new((4 - v.len()) as nat, |i: int| 0u8)
    }
}

/// The persisted form of a metadata record: width, height, glyph count.
pub open spec fn encode_info(info: SpriteInfo) -> Seq<u8> {
    seq![info.glyph_size.width, info.glyph_size.height, info.glyphs]
}

/// Reading a metadata record back; anything but 3 bytes is malformed.
pub open spec fn decode_info(v: Seq<u8>) -> Option<SpriteInfo> {
    if v.len() == 3 {
        Some(
            SpriteInfo {
                glyphs: v[2],
                glyph_size: Size { width: v[0], height: v[1] },
            },
        )
    } else {
        None
    }
}

/// Every key the store schema admits: two bytes, tagged `'m'`, `'s'` or
/// `'b'`.
pub open spec fn schema_key(k: Seq<u8>) -> bool {
    k.len() == 2 && (k[0] == TAG_REG || k[0] == TAG_META || k[0] == TAG_BITMAP)
}

/// Decoding what was encoded gives the record back.
pub proof fn lemma_info_round_trip(info: SpriteInfo)
    ensures
        decode_info(encode_info(info)) == Some(info),
{
}

fn reg_key_vec(reg: u8) -> (r: Vec<u8>)
    ensures
        r@ == reg_key(reg),
{
    let mut v: Vec<u8> = Vec::new();
    v.push(TAG_REG);
    v.push(reg);
    proof {
        assert_seqs_equal!(v@ == reg_key(reg));
    }
    v
}

fn meta_key_vec(id: u8) -> (r: Vec<u8>)
    ensures
        r@ == meta_key(id),
{
    let mut v: Vec<u8> = Vec::new();
    v.push(TAG_META);
    v.push(id);
    proof {
        assert_seqs_equal!(v@ == meta_key(id));
    }
    v
}

fn bitmap_key_vec(id: u8) -> (r: Vec<u8>)
    ensures
        r@ == bitmap_key(id),
{
    let mut v: Vec<u8> = Vec::new();
    v.push(TAG_BITMAP);
    v.push(id);
    proof {
        assert_seqs_equal!(v@ == bitmap_key(id));
    }
    v
}

/// The typed store: the flash key/value store plus the bounded LRU cache
/// of resolved sprite descriptors, most recently used first.
pub struct AssetStore {
    kv: FlashKv,
    cache: Vec<Sprite>,
    cache_cap: usize,
}

impl AssetStore {
    /// The key/value association currently persisted.
    pub closed spec fn kv(&self) -> Map<Seq<u8>, Seq<u8>> {
        kv_contents(&self.kv)
    }

    /// The flash address of the value region of `key`.
    pub closed spec fn addr_of(&self, key: Seq<u8>) -> int {
        kv_val_addr(&self.kv, key)
    }

    /// Whether the underlying store would place a fresh record of `key`
    /// plus `val_len` value bytes.
    pub closed spec fn has_room(&self, key: Seq<u8>, val_len: int) -> bool {
        kv_room(&self.kv, key, val_len)
    }

    /// The descriptor cache, most recently used first.
    pub closed spec fn cache_view(&self) -> Seq<Sprite> {
        self.cache@
    }

    /// Capacity of the descriptor cache.
    pub closed spec fn cache_capacity(&self) -> int {
        self.cache_cap as int
    }

    /// The descriptor sprite `id` resolves to, if the store holds both of
    /// its records and the metadata decodes.
    pub open spec fn spec_sprite(&self, id: u8) -> Option<Sprite> {
        if self.kv().dom().contains(meta_key(id)) && self.kv().dom().contains(bitmap_key(id))
            && decode_info(self.kv()[meta_key(id)]) is Some {
            Some(
                Sprite {
                    sprite_id: id,
                    info: decode_info(self.kv()[meta_key(id)]) -> Some_0,
                    addr: self.addr_of(bitmap_key(id)) as usize,
                },
            )
        } else {
            None
        }
    }

    /// Well-formedness: a finite store holding only schema keys, and a
    /// bounded cache of distinct, currently-valid descriptors.
    pub closed spec fn wf(&self) -> bool {
        &&& self.kv().dom().finite()
        &&& 1 <= self.cache_cap
        &&& self.cache@.len() <= self.cache_cap
        &&& forall|k: Seq<u8>| #[trigger] self.kv().dom().contains(k) ==> schema_key(k)
        &&& forall|i: int|
            0 <= i < self.cache@.len() ==> #[trigger] self.spec_sprite(self.cache@[i].sprite_id)
                == Some(self.cache@[i])
        &&& forall|i: int, j: int|
            0 <= i < j < self.cache@.len() ==> self.cache@[i].sprite_id
                != self.cache@[j].sprite_id
    }

    /// A fresh store over a newly formatted flash image.
    pub fn new() -> (r: AssetStore)
        ensures
            r.wf(),
            r.kv() == kv_empty(),
            r.cache_view() == Seq::<Sprite>::empty(),
            r.cache_capacity() == SPRITE_CACHE_SIZE,
            forall|key: Seq<u8>, len: int|
                1 <= key.len() <= 255 && 0 <= len <= 65535 ==> #[trigger] r.has_room(key, len),
    {
        Self::with_cache_size(SPRITE_CACHE_SIZE)
    }

    /// A fresh store with the given descriptor cache capacity.
    pub fn with_cache_size(cap: usize) -> (r: AssetStore)
        requires
            cap >= 1,
        ensures
            r.wf(),
            r.kv() == kv_empty(),
            r.cache_view() == Seq::<Sprite>::empty(),
            r.cache_capacity() == cap,
            forall|key: Seq<u8>, len: int|
                1 <= key.len() <= 255 && 0 <= len <= 65535 ==> #[trigger] r.has_room(key, len),
    {
        let r = AssetStore { kv: FlashKv::open_empty(), cache: Vec::new(), cache_cap: cap };
        proof {
            assert_sets_equal!(r.kv().dom() == Set::<Seq<u8>>::empty());
        }
        r
    }

    /// Read register slot `reg`: its persisted bytes zero-padded to four,
    /// or `StoreKeyNotFound` for a slot never written.
    pub fn read_nvm(&mut self, reg: u8) -> (r: Result<[u8; 4], FxError>)
        requires
            old(self).wf(),
        ensures
            final(self).wf(),
            final(self).kv() == old(self).kv(),
            layout_preserved(old(self), final(self)),
            final(self).cache_view() == old(self).cache_view(),
            final(self).cache_capacity() == old(self).cache_capacity(),
            forall|id: u8| #[trigger]
                final(self).spec_sprite(id) == old(self).spec_sprite(id),
            old(self).kv().dom().contains(reg_key(reg)) ==> (r matches Ok(v) && v@ == pad4(
                old(self).kv()[reg_key(reg)],
            )),
            !old(self).kv().dom().contains(reg_key(reg)) ==> (r matches Err(e) && e
                == FxError::StoreKeyNotFound),
    {
        let key = reg_key_vec(reg);
        let mut buf: Vec<u8> = vec![0u8; 4];
        let ghost zeros = buf@;
        let res = self.kv.load(key.as_slice(), &mut buf);
        proof {
            lemma_sprites_preserved(*old(self), *self);
        }
        match res {
            Ok(_) => {
                let out: [u8; 4] = [buf[0], buf[1], buf[2], buf[3]];
                proof {
                    let v = old(self).kv()[reg_key(reg)];
                    if v.len() >= 4 {
                        assert_seqs_equal!(out@ == pad4(v));
                    } else {
                        assert_seqs_equal!(out@ == pad4(v), i => {
                            if i < v.len() {
                            } else {
                                assert(buf@[i] == zeros[i]);
                            }
                        });
                    }
                }
                Ok(out)
            }
            Err(e) => Err(e),
        }
    }

    /// Write register slot `reg`.  On success the slot holds exactly the
    /// four bytes given; a write into a store with room for the record
    /// always succeeds, and sprites and the descriptor cache are
    /// untouched either way.
    pub fn write_nvm(&mut self, reg: u8, val: [u8; 4]) -> (r: Result<(), FxError>)
        requires
            old(self).wf(),
            reg <= 0xFC,
        ensures
            final(self).wf(),
            final(self).cache_view() == old(self).cache_view(),
            final(self).cache_capacity() == old(self).cache_capacity(),
            forall|id: u8| #[trigger]
                final(self).spec_sprite(id) == old(self).spec_sprite(id),
            old(self).has_room(reg_key(reg), 4) ==> r is Ok,
            r is Ok ==> final(self).kv() == old(self).kv().insert(reg_key(reg), val@),
            r matches Err(e) ==> e == FxError::StoreFull && final(self).kv() == old(
                self,
            ).kv().remove(reg_key(reg)),
    {
        let key = reg_key_vec(reg);
        let mut bytes: Vec<u8> = Vec::new();
        bytes.push(val[0]);
        bytes.push(val[1]);
        bytes.push(val[2]);
        bytes.push(val[3]);
        proof {
            assert_seqs_equal!(bytes@ == val@);
        }
        self.kv.remove(key.as_slice()).unwrap();
        let res = self.kv.insert(key.as_slice(), bytes.as_slice());
        proof {
            assert forall|id: u8| reg_key(reg) != meta_key(id) && reg_key(reg) != bitmap_key(
                id,
            ) by {
                lemma_keys_distinct(reg, id);
            }
            lemma_other_key_preserves_sprites(*old(self), *self, reg_key(reg));
            assert forall|k: Seq<u8>| #[trigger]
                self.kv().dom().contains(k) implies schema_key(k) by {
                if k != reg_key(reg) {
                    assert(old(self).kv().dom().contains(k));
                }
            }
            if res is Ok {
                assert_maps_equal!(self.kv(), old(self).kv().insert(reg_key(reg), val@));
            }
        }
        res
    }

    /// Create sprite `id`: drop any previous generation, reserve the
    /// bitmap blob sized by `info`, then persist the metadata record;
    /// the descriptor cache is cleared in any case.  If the metadata
    /// write fails the blob is rolled back, so a failed creation leaves
    /// the sprite fully absent, never half-present.
    pub fn create_sprite(&mut self, id: u8, info: SpriteInfo) -> (r: Result<(), FxError>)
        requires
            old(self).wf(),
        ensures
            final(self).wf(),
            final(self).cache_view() == Seq::<Sprite>::empty(),
            final(self).cache_capacity() == old(self).cache_capacity(),
            (r matches Err(e) && e == FxError::StoreInvalidLength) <==> info.spec_bitmap_len()
                > KVS_MAX_VALUE,
            info.spec_bitmap_len() > KVS_MAX_VALUE ==> final(self).kv() == old(self).kv(),
            r is Ok ==> (exists|v: Seq<u8>|
                v.len() == info.spec_bitmap_len() && final(self).kv() == old(self).kv().insert(
                    bitmap_key(id),
                    v,
                ).insert(meta_key(id), encode_info(info))),
            r is Ok ==> (final(self).spec_sprite(id) matches Some(s) && s.sprite_id == id && s.info
                == info),
            r matches Err(e) ==> (e == FxError::StoreFull || e == FxError::StoreInvalidLength),
            (r matches Err(e) && e == FxError::StoreFull) ==> final(self).kv() == old(
                self,
            ).kv().remove(bitmap_key(id)).remove(meta_key(id)),
    {
        self.cache.clear();
        let bl = info.bitmap_len();
        if bl > KVS_MAX_VALUE {
            return Err(FxError::StoreInvalidLength);
        }
        let bkey = bitmap_key_vec(id);
        let skey = meta_key_vec(id);
        proof {
            lemma_keys_distinct(id, id);
        }
        self.kv.remove(bkey.as_slice()).unwrap();
        self.kv.remove(skey.as_slice()).unwrap();
        let ghost m1 = self.kv();
        if let Err(e) = self.kv.reserve(bkey.as_slice(), bl) {
            proof {
                self.lemma_schema_after(*old(self), id, info);
            }
            return Err(e);
        }
        let ghost blob = self.kv()[bitmap_key(id)];
        proof {
            assert_maps_equal!(self.kv(), m1.insert(bitmap_key(id), blob), k => {
                if k != bitmap_key(id) {
                    assert(self.kv().dom() == m1.dom().insert(bitmap_key(id)));
                }
            });
        }
        let enc = encode_info_vec(&info);
        let res = self.kv.insert(skey.as_slice(), enc.as_slice());
        match res {
            Ok(()) => {
                proof {
                    lemma_info_round_trip(info);
                    self.lemma_schema_after(*old(self), id, info);
                    assert_maps_equal!(
                        self.kv(),
                        old(self).kv().insert(bitmap_key(id), blob).insert(
                            meta_key(id),
                            encode_info(info),
                        )
                    );
                }
                Ok(())
            }
            Err(e) => {
                self.kv.remove(bkey.as_slice()).unwrap();
                proof {
                    self.lemma_schema_after(*old(self), id, info);
                    assert_maps_equal!(self.kv(), m1);
                }
                Err(e)
            }
        }
    }

    /// The schema invariant survives any mix of blob and metadata
    /// insertions and removals for one sprite.
    proof fn lemma_schema_after(&self, pre: AssetStore, id: u8, info: SpriteInfo)
        requires
            pre.wf(),
            self.kv().dom().subset_of(
                pre.kv().dom().insert(bitmap_key(id)).insert(meta_key(id)),
            ),
            self.kv().dom().finite(),
        ensures
            forall|k: Seq<u8>| #[trigger] self.kv().dom().contains(k) ==> schema_key(k),
    {
        assert forall|k: Seq<u8>| #[trigger] self.kv().dom().contains(k) implies schema_key(k) by {
            if k != bitmap_key(id) && k != meta_key(id) {
                assert(pre.kv().dom().contains(k));
            }
        }
    }

    /// Patch the bitmap blob of sprite `id` in place at `offset`.  The
    /// descriptor cache is cleared in any case; the patch is rejected
    /// with `StoreInvalidLength` when it would run past the blob and with
    /// `StoreKeyNotFound` when the sprite has no blob.
    pub fn patch_sprite_bitmap(&mut self, id: u8, offset: usize, patch: &[u8]) -> (r: Result<
        (),
        FxError,
    >)
        requires
            old(self).wf(),
        ensures
            final(self).wf(),
            final(self).cache_view() == Seq::<Sprite>::empty(),
            final(self).cache_capacity() == old(self).cache_capacity(),
            layout_preserved(old(self), final(self)),
            !old(self).kv().dom().contains(bitmap_key(id)) ==> (r matches Err(e) && e
                == FxError::StoreKeyNotFound) && final(self).kv() == old(self).kv(),
            old(self).kv().dom().contains(bitmap_key(id)) && offset + patch@.len() <= old(
                self,
            ).kv()[bitmap_key(id)].len() ==> r is Ok && final(self).kv() == old(
                self,
            ).kv().insert(
                bitmap_key(id),
                splice(old(self).kv()[bitmap_key(id)], offset as int, patch@),
            ),
            old(self).kv().dom().contains(bitmap_key(id)) && offset + patch@.len() > old(
                self,
            ).kv()[bitmap_key(id)].len() ==> (r matches Err(e) && e
                == FxError::StoreInvalidLength) && final(self).kv() == old(self).kv(),
    {
        self.cache.clear();
        let bkey = bitmap_key_vec(id);
        let vlen = match self.kv.lookup(bkey.as_slice()) {
            Ok(p) => p.1,
            Err(e) => {
                return Err(e);
            }
        };
        let need = match offset.checked_add(patch.len()) {
            Some(n) => n,
            None => {
                return Err(FxError::StoreInvalidLength);
            }
        };
        if need > vlen {
            return Err(FxError::StoreInvalidLength);
        }
        let res = self.kv.patch(bkey.as_slice(), offset, patch);
        proof {
            assert forall|k: Seq<u8>| #[trigger]
                self.kv().dom().contains(k) implies schema_key(k) by {
                if k != bitmap_key(id) {
                    assert(old(self).kv().dom().contains(k));
                }
            }
        }
        res
    }

    /// Delete sprite `id`: clear the descriptor cache, then remove the
    /// blob and the metadata record.  Removal always succeeds, also for
    /// a sprite that never existed or left a dangling half behind.
    pub fn delete_sprite(&mut self, id: u8) -> (r: Result<(), FxError>)
        requires
            old(self).wf(),
        ensures
            final(self).wf(),
            final(self).cache_view() == Seq::<Sprite>::empty(),
            final(self).cache_capacity() == old(self).cache_capacity(),
            r is Ok,
            final(self).kv() == old(self).kv().remove(bitmap_key(id)).remove(meta_key(id)),
    {
        self.cache.clear();
        let bkey = bitmap_key_vec(id);
        let skey = meta_key_vec(id);
        self.kv.remove(bkey.as_slice()).unwrap();
        self.kv.remove(skey.as_slice()).unwrap();
        proof {
            assert forall|k: Seq<u8>| #[trigger]
                self.kv().dom().contains(k) implies schema_key(k) by {
                assert(old(self).kv().dom().contains(k));
            }
        }
        Ok(())
    }

    /// Resolve sprite `id`, serving from the descriptor cache when
    /// possible.  A hit moves the descriptor to the front; a miss loads
    /// both records, caches the descriptor (evicting the least recently
    /// used one when full) and returns it.  The persisted store never
    /// changes and the result is exactly what the store resolves.
    pub fn get_sprite(&mut self, id: u8) -> (r: Option<Sprite>)
        requires
            old(self).wf(),
        ensures
            final(self).wf(),
            final(self).kv() == old(self).kv(),
            layout_preserved(old(self), final(self)),
            final(self).cache_capacity() == old(self).cache_capacity(),
            forall|x: u8| #[trigger] final(self).spec_sprite(x) == old(self).spec_sprite(x),
            r == old(self).spec_sprite(id),
            r is None ==> final(self).cache_view() == old(self).cache_view(),
            r matches Some(s) ==> final(self).cache_view() == cache_after_get(
                old(self).cache_view(),
                s,
                old(self).cache_capacity(),
            ),
    {
        let ghost c = old(self).cache@;
        let mut i: usize = 0;
        while i < self.cache.len()
            invariant
                old(self).wf(),
                *self == *old(self),
                c == old(self).cache@,
                i <= self.cache@.len(),
                forall|j: int| 0 <= j < i ==> self.cache@[j].sprite_id != id,
            decreases self.cache@.len() - i,
        {
            if self.cache[i].sprite_id == id {
                let s = self.cache[i];
                proof {
                    assert(old(self).spec_sprite(c[i as int].sprite_id) == Some(c[i as int]));
                }
                self.cache.remove(i);
                self.cache.insert(0, s);
                proof {
                    lemma_sprites_preserved(*old(self), *self);
                    let cv = self.cache@;
                    assert(cv =~= seq![s] + c.remove(i as int));
                    assert forall|m: int|
                        0 <= m < cv.len() implies #[trigger] self.spec_sprite(cv[m].sprite_id)
                        == Some(cv[m]) by {
                        let j = (if m <= i { m - 1 } else { m }) as int;
                        if m == 0 {
                            assert(cv[m] == c[i as int]);
                        } else {
                            assert(cv[m] == c[j]);
                            assert(old(self).spec_sprite(c[j].sprite_id) == Some(c[j]));
                        }
                    }
                    assert forall|m: int, n: int|
                        0 <= m < n < cv.len() implies cv[m].sprite_id != cv[n].sprite_id by {
                        let jn = (if n <= i { n - 1 } else { n }) as int;
                        assert(cv[n] == c[jn]);
                        if m == 0 {
                            assert(cv[0] == c[i as int]);
                            assert(jn != i);
                        } else {
                            let jm = (if m <= i { m - 1 } else { m }) as int;
                            assert(cv[m] == c[jm]);
                            assert(jm != jn);
                        }
                    }
                    let ch = choose|j: int|
                        0 <= j < c.len() && c[j].sprite_id == s.sprite_id;
                    if ch != i {
                        if ch < i {
                            assert(c[ch].sprite_id != c[i as int].sprite_id);
                        } else {
                            assert(c[i as int].sprite_id != c[ch].sprite_id);
                        }
                    }
                    assert(self.cache@ =~= cache_after_get(c, s, old(self).cache_capacity()));
                }
                return Some(s);
            }
            i += 1;
        }
        let ghost pre = *old(self);
        let skey = meta_key_vec(id);
        let mut buf: Vec<u8> = vec![0u8; 3];
        let lr = self.kv.load(skey.as_slice(), &mut buf);
        proof {
            lemma_sprites_preserved(pre, *self);
        }
        let vlen = match lr {
            Ok(l) => l,
            Err(_) => {
                return None;
            }
        };
        if vlen != 3 {
            return None;
        }
        proof {
            assert_seqs_equal!(buf@ == pre.kv()[meta_key(id)]);
        }
        let info = SpriteInfo {
            glyphs: buf[2],
            glyph_size: Size { width: buf[0], height: buf[1] },
        };
        let bkey = bitmap_key_vec(id);
        let pr = self.kv.lookup(bkey.as_slice());
        proof {
            lemma_sprites_preserved(pre, *self);
        }
        let p = match pr {
            Ok(p) => p,
            Err(_) => {
                return None;
            }
        };
        let s = Sprite { sprite_id: id, info, addr: p.0 };
        proof {
            assert(pre.spec_sprite(id) == Some(s));
        }
        let evicted = if self.cache.len() >= self.cache_cap {
            self.cache.pop();
            true
        } else {
            false
        };
        self.cache.insert(0, s);
        proof {
            lemma_sprites_preserved(pre, *self);
            let cv = self.cache@;
            if evicted {
                assert(cv =~= seq![s] + c.drop_last());
            } else {
                assert(cv =~= seq![s] + c);
            }
            assert forall|m: int|
                0 <= m < cv.len() implies #[trigger] self.spec_sprite(cv[m].sprite_id) == Some(
                cv[m],
            ) by {
                if m == 0 {
                    assert(cv[m] == s);
                } else {
                    assert(cv[m] == c[m - 1]);
                    assert(pre.spec_sprite(c[m - 1].sprite_id) == Some(c[m - 1]));
                }
            }
            assert forall|m: int, n: int|
                0 <= m < n < cv.len() implies cv[m].sprite_id != cv[n].sprite_id by {
                assert(cv[n] == c[n - 1]);
                if m > 0 {
                    assert(cv[m] == c[m - 1]);
                }
            }
            assert(!(exists|j: int| 0 <= j < c.len() && c[j].sprite_id == s.sprite_id));
            assert(cv =~= cache_after_get(c, s, pre.cache_capacity()));
        }
        Some(s)
    }

    /// Length of the bitmap blob of sprite `id`, when present; the blob
    /// region is known to lie inside the flash image.
    pub fn blob_len(&mut self, id: u8) -> (r: Option<usize>)
        requires
            old(self).wf(),
        ensures
            final(self).wf(),
            final(self).kv() == old(self).kv(),
            layout_preserved(old(self), final(self)),
            final(self).cache_view() == old(self).cache_view(),
            final(self).cache_capacity() == old(self).cache_capacity(),
            forall|x: u8| #[trigger] final(self).spec_sprite(x) == old(self).spec_sprite(x),
            old(self).kv().dom().contains(bitmap_key(id)) ==> (r matches Some(l) && l == old(
                self,
            ).kv()[bitmap_key(id)].len() && 0 <= old(self).addr_of(bitmap_key(id)) && old(
                self,
            ).addr_of(bitmap_key(id)) + l <= FLASH_SIZE),
            !old(self).kv().dom().contains(bitmap_key(id)) ==> r is None,
    {
        let bkey = bitmap_key_vec(id);
        let res = self.kv.lookup(bkey.as_slice());
        proof {
            lemma_sprites_preserved(*old(self), *self);
        }
        match res {
            Ok(p) => Some(p.1),
            Err(_) => None,
        }
    }

    /// The identifiers currently cached, most recently used first.
    pub fn cached_ids(&self) -> (r: Vec<u8>)
        ensures
            r@ == cache_ids(self.cache_view()),
    {
        let mut out: Vec<u8> = Vec::new();
        let mut i: usize = 0;
        while i < self.cache.len()
            invariant
                i <= self.cache@.len(),
                out@ == cache_ids(self.cache@.take(i as int)),
            decreases self.cache@.len() - i,
        {
            out.push(self.cache[i].sprite_id);
            proof {
                assert(cache_ids(self.cache@.take(i + 1 as int)) =~= cache_ids(
                    self.cache@.take(i as int),
                ).push(self.cache@[i as int].sprite_id));
            }
            i += 1;
        }
        proof {
            assert(self.cache@.take(self.cache@.len() as int) =~= self.cache@);
        }
        out
    }

    /// Number of sprites whose bitmap blob is present.
    pub fn get_sprites_count(&mut self) -> (r: usize)
        requires
            old(self).wf(),
        ensures
            final(self).wf(),
            final(self).kv() == old(self).kv(),
            layout_preserved(old(self), final(self)),
            final(self).cache_view() == old(self).cache_view(),
            final(self).cache_capacity() == old(self).cache_capacity(),
            forall|x: u8| #[trigger] final(self).spec_sprite(x) == old(self).spec_sprite(x),
            r == prefixed_keys(old(self).kv(), seq![TAG_BITMAP]).len(),
    {
        let mut prefix: Vec<u8> = Vec::new();
        prefix.push(TAG_BITMAP);
        let keys = self.kv.keys_with_prefix(prefix.as_slice());
        proof {
            lemma_sprites_preserved(*old(self), *self);
            assert(prefix@ =~= seq![TAG_BITMAP]);
            seq_views(keys@).unique_seq_to_set();
        }
        keys.len()
    }

    /// Raw flash read at `addr`, used by the render path to stream glyph
    /// bytes straight out of a bitmap blob: a read inside the value
    /// region of a stored key yields that slice of the stored bytes.
    pub fn read(&mut self, addr: usize, buf: &mut Vec<u8>) -> (r: Result<(), FxError>)
        requires
            old(self).wf(),
            addr + old(buf)@.len() <= usize::MAX,
        ensures
            final(self).wf(),
            final(self).kv() == old(self).kv(),
            layout_preserved(old(self), final(self)),
            final(self).cache_view() == old(self).cache_view(),
            final(self).cache_capacity() == old(self).cache_capacity(),
            forall|x: u8| #[trigger] final(self).spec_sprite(x) == old(self).spec_sprite(x),
            final(buf)@.len() == old(buf)@.len(),
            addr + old(buf)@.len() <= FLASH_SIZE ==> r is Ok,
            addr + old(buf)@.len() > FLASH_SIZE ==> (r matches Err(e) && e == FxError::BusIo)
                && final(buf)@ == old(buf)@,
            forall|k: Seq<u8>|
                (#[trigger] old(self).kv().dom().contains(k) && old(self).addr_of(k) <= addr
                    && addr + old(buf)@.len() <= old(self).addr_of(k) + old(
                    self,
                ).kv()[k].len()) ==> final(buf)@ == old(self).kv()[k].subrange(
                    addr - old(self).addr_of(k),
                    addr - old(self).addr_of(k) + old(buf)@.len(),
                ),
    {
        let res = self.kv.read_raw(addr, buf);
        proof {
            lemma_sprites_preserved(*old(self), *self);
        }
        res
    }

    /// Remove every sprite: scan the bitmap blobs and, for each, remove
    /// the blob and its metadata twin.  The wipe always succeeds and
    /// never touches a register slot.
    pub fn delete_all_sprites(&mut self) -> (r: Result<(), FxError>)
        requires
            old(self).wf(),
        ensures
            final(self).wf(),
            final(self).cache_view() == Seq::<Sprite>::empty(),
            final(self).cache_capacity() == old(self).cache_capacity(),
            r is Ok,
            final(self).kv() == without_sprites(old(self).kv()),
            forall|rg: u8| #[trigger]
                final(self).kv().dom().contains(reg_key(rg)) <==> old(self).kv().dom().contains(
                    reg_key(rg),
                ),
    {
        self.cache.clear();
        let mut prefix: Vec<u8> = Vec::new();
        prefix.push(TAG_BITMAP);
        let keys = self.kv.keys_with_prefix(prefix.as_slice());
        let ghost m0 = old(self).kv();
        let ghost ks = seq_views(keys@);
        proof {
            assert(prefix@ =~= seq![TAG_BITMAP]);
            assert forall|j: int|
                0 <= j < ks.len() implies ((#[trigger] ks[j]).len() == 2 && ks[j][0] == TAG_BITMAP
                && ks[j] == bitmap_key(ks[j][1])) by {
                assert(ks.to_set().contains(ks[j]));
                assert(m0.dom().contains(ks[j]));
                lemma_bitmap_prefix(ks[j]);
                assert_seqs_equal!(ks[j] == bitmap_key(ks[j][1]));
            }
            assert_maps_equal!(m0.remove_keys(pair_keys_upto(ks, 0)), m0);
        }
        let mut i: usize = 0;
        while i < keys.len()
            invariant
                old(self).wf(),
                m0 == old(self).kv(),
                self.cache@.len() == 0,
                self.cache_cap == old(self).cache_cap,
                ks == seq_views(keys@),
                forall|j: int|
                    0 <= j < ks.len() ==> ((#[trigger] ks[j]).len() == 2 && ks[j][0] == TAG_BITMAP
                        && ks[j] == bitmap_key(ks[j][1])),
                ks.no_duplicates(),
                ks.to_set() == prefixed_keys(m0, seq![TAG_BITMAP]),
                i <= keys@.len(),
                self.kv().dom().finite(),
                forall|k: Seq<u8>| #[trigger]
                    self.kv().dom().contains(k) ==> m0.dom().contains(k) && self.kv()[k] == m0[k],
                forall|rg: u8| #[trigger]
                    self.kv().dom().contains(reg_key(rg)) <==> m0.dom().contains(reg_key(rg)),
                self.kv() == m0.remove_keys(pair_keys_upto(ks, i as int)),
            decreases keys@.len() - i,
        {
            let ghost prev = self.kv();
            proof {
                assert(keys[i as int]@ == ks[i as int]);
            }
            let row = &keys[i];
            let id = row[1];
            self.kv.remove(row.as_slice()).unwrap();
            let skey = meta_key_vec(id);
            self.kv.remove(skey.as_slice()).unwrap();
            proof {
                assert forall|rg: u8| #[trigger]
                    self.kv().dom().contains(reg_key(rg)) <==> m0.dom().contains(
                    reg_key(rg),
                ) by {
                    lemma_keys_distinct(rg, id);
                }
                assert(self.kv() == prev.remove(bitmap_key(id)).remove(meta_key(id)));
                assert_maps_equal!(
                    prev.remove(bitmap_key(id)).remove(meta_key(id)),
                    m0.remove_keys(pair_keys_upto(ks, i as int + 1)),
                    k => {
                        lemma_pair_keys_upto_step(ks, i as int, k);
                    }
                );
            }
            i += 1;
        }
        proof {
            assert forall|k: Seq<u8>| #[trigger]
                self.kv().dom().contains(k) implies schema_key(k) by {
                assert(m0.dom().contains(k));
            }
            assert_sets_equal!(pair_keys_upto(ks, ks.len() as int) == swept_keys(m0), k => {
                lemma_swept_membership(m0, ks, k);
            });
            assert(self.kv() == without_sprites(m0));
        }
        Ok(())
    }
}

/// The identifiers of a cache snapshot, most recently used first.
pub open spec fn cache_ids(c: Seq<Sprite>) -> Seq<u8> {
    c.map_values(|s: Sprite| s.sprite_id)
}

/// The keys a bulk sprite wipe removes: every bitmap key present and the
/// metadata twin of every bitmap key present.  Orphan metadata records
/// whose blob is already gone are left behind, as the wipe walks blobs.
pub open spec fn swept_keys(m: Map<Seq<u8>, Seq<u8>>) -> Set<Seq<u8>> {
    Set::new(
        |k: Seq<u8>|
            (m.dom().contains(k) && k.len() == 2 && k[0] == TAG_BITMAP) || (k.len() == 2 && k[0]
                == TAG_META && m.dom().contains(seq![TAG_BITMAP, k[1]])),
    )
}

/// The store after a bulk sprite wipe.
pub open spec fn without_sprites(m: Map<Seq<u8>, Seq<u8>>) -> Map<Seq<u8>, Seq<u8>> {
    m.remove_keys(swept_keys(m))
}

/// The blob keys among the first `n` scanned keys, together with their
/// metadata twins.
pub open spec fn pair_keys_upto(ks: Seq<Seq<u8>>, n: int) -> Set<Seq<u8>> {
    Set::new(
        |k: Seq<u8>|
            exists|j: int|
                0 <= j < n && j < ks.len() && (k == ks[j] || k == seq![TAG_META, ks[j][1]]),
    )
}

/// Extending the sweep by one scanned key adds exactly that key and its
/// metadata twin.
proof fn lemma_pair_keys_upto_step(ks: Seq<Seq<u8>>, i: int, k: Seq<u8>)
    requires
        0 <= i < ks.len(),
    ensures
        pair_keys_upto(ks, i + 1).contains(k) <==> (pair_keys_upto(ks, i).contains(k) || k
            == ks[i] || k == seq![TAG_META, ks[i][1]]),
{
    if pair_keys_upto(ks, i + 1).contains(k) {
        let j = choose|j: int|
            0 <= j < i + 1 && j < ks.len() && (k == ks[j] || k == seq![TAG_META, ks[j][1]]);
        if j < i {
            assert(pair_keys_upto(ks, i).contains(k));
        }
    }
    if pair_keys_upto(ks, i).contains(k) {
        let j = choose|j: int|
            0 <= j < i && j < ks.len() && (k == ks[j] || k == seq![TAG_META, ks[j][1]]);
        assert(0 <= j < i + 1 && j < ks.len() && (k == ks[j] || k == seq![TAG_META, ks[j][1]]));
        assert(pair_keys_upto(ks, i + 1).contains(k));
    }
    if k == ks[i] || k == seq![TAG_META, ks[i][1]] {
        assert(0 <= i < i + 1 && i < ks.len() && (k == ks[i] || k == seq![TAG_META, ks[i][1]]));
        assert(pair_keys_upto(ks, i + 1).contains(k));
    }
}

/// After the whole scan, the swept pairs are exactly the bulk-wipe set.
proof fn lemma_swept_membership(m0: Map<Seq<u8>, Seq<u8>>, ks: Seq<Seq<u8>>, k: Seq<u8>)
    requires
        forall|j: int|
            0 <= j < ks.len() ==> ((#[trigger] ks[j]).len() == 2 && ks[j][0] == TAG_BITMAP
                && ks[j] == bitmap_key(ks[j][1])),
        ks.to_set() == prefixed_keys(m0, seq![TAG_BITMAP]),
        forall|k2: Seq<u8>| #[trigger] m0.dom().contains(k2) ==> schema_key(k2),
    ensures
        pair_keys_upto(ks, ks.len() as int).contains(k) <==> swept_keys(m0).contains(k),
{
    if pair_keys_upto(ks, ks.len() as int).contains(k) {
        let j = choose|j: int|
            0 <= j < ks.len() && j < ks.len() && (k == ks[j] || k == seq![TAG_META, ks[j][1]]);
        assert(ks.to_set().contains(ks[j]));
        assert(m0.dom().contains(ks[j]));
        if k == ks[j] {
            assert(swept_keys(m0).contains(k));
        } else {
            assert(m0.dom().contains(seq![TAG_BITMAP, k[1]])) by {
                assert_seqs_equal!(seq![TAG_BITMAP, k[1]] == ks[j]);
            }
            assert(swept_keys(m0).contains(k));
        }
    }
    if swept_keys(m0).contains(k) {
        if m0.dom().contains(k) && k.len() == 2 && k[0] == TAG_BITMAP {
            lemma_bitmap_prefix(k);
            assert(prefixed_keys(m0, seq![TAG_BITMAP]).contains(k));
            assert(ks.to_set().contains(k));
            let j = choose|j: int| 0 <= j < ks.len() && ks[j] == k;
            assert(0 <= j < ks.len() && (k == ks[j] || k == seq![TAG_META, ks[j][1]]));
            assert(pair_keys_upto(ks, ks.len() as int).contains(k));
        } else {
            let bk = seq![TAG_BITMAP, k[1]];
            lemma_bitmap_prefix(bk);
            assert(prefixed_keys(m0, seq![TAG_BITMAP]).contains(bk));
            assert(ks.to_set().contains(bk));
            let j = choose|j: int| 0 <= j < ks.len() && ks[j] == bk;
            assert(k == seq![TAG_META, ks[j][1]]) by {
                assert_seqs_equal!(k == seq![TAG_META, bk[1]]);
            }
            assert(0 <= j < ks.len() && (k == ks[j] || k == seq![TAG_META, ks[j][1]]));
            assert(pair_keys_upto(ks, ks.len() as int).contains(k));
        }
    }
}

/// A two-byte key starts with the bitmap tag exactly when the prefix
/// scan for that tag reports it.
pub proof fn lemma_bitmap_prefix(k: Seq<u8>)
    ensures
        has_prefix(k, seq![TAG_BITMAP]) <==> (k.len() >= 2 && k[0] == TAG_BITMAP),
{
    if k.len() >= 2 && k[0] == TAG_BITMAP {
        assert_seqs_equal!(k.subrange(0, 1) == seq![TAG_BITMAP]);
    }
    if has_prefix(k, seq![TAG_BITMAP]) {
        assert(k.subrange(0, 1)[0] == k[0]);
    }
}

/// How one cache lookup reorders the cache: the resolved descriptor
/// moves to (or enters at) the front; on insertion into a full cache the
/// least recently used descriptor at the back leaves.
pub open spec fn cache_after_get(c: Seq<Sprite>, s: Sprite, cap: int) -> Seq<Sprite> {
    if exists|i: int| 0 <= i < c.len() && c[i].sprite_id == s.sprite_id {
        let i = choose|i: int| 0 <= i < c.len() && c[i].sprite_id == s.sprite_id;
        seq![s] + c.remove(i)
    } else if c.len() < cap {
        seq![s] + c
    } else {
        seq![s] + c.drop_last()
    }
}

fn encode_info_vec(info: &SpriteInfo) -> (r: Vec<u8>)
    ensures
        r@ == encode_info(*info),
{
    let mut v: Vec<u8> = Vec::new();
    v.push(info.glyph_size.width);
    v.push(info.glyph_size.height);
    v.push(info.glyphs);
    proof {
        assert_seqs_equal!(v@ == encode_info(*info));
    }
    v
}

/// Law: creating a sprite under a fresh identifier makes it resolvable
/// with exactly the metadata given and raises the sprite count by one.
pub proof fn lemma_create_then_get(m: Map<Seq<u8>, Seq<u8>>, id: u8, v: Seq<u8>, info: SpriteInfo)
    requires
        m.dom().finite(),
        !m.dom().contains(bitmap_key(id)),
    ensures
        ({
            let m2 = m.insert(bitmap_key(id), v).insert(meta_key(id), encode_info(info));
            decode_info(m2[meta_key(id)]) == Some(info) && m2.dom().contains(bitmap_key(id))
                && prefixed_keys(m2, seq![TAG_BITMAP]).len() == prefixed_keys(
                m,
                seq![TAG_BITMAP],
            ).len() + 1
        }),
{
    let m2 = m.insert(bitmap_key(id), v).insert(meta_key(id), encode_info(info));
    lemma_keys_distinct(id, id);
    lemma_info_round_trip(info);
    assert_sets_equal!(
        prefixed_keys(m2, seq![TAG_BITMAP]),
        prefixed_keys(m, seq![TAG_BITMAP]).insert(bitmap_key(id)),
        k => {
            lemma_bitmap_prefix(k);
            lemma_bitmap_prefix(bitmap_key(id));
            if k == meta_key(id) {
                assert(!has_prefix(k, seq![TAG_BITMAP]));
            }
        }
    );
    m.dom().lemma_len_filter(|k: Seq<u8>| has_prefix(k, seq![TAG_BITMAP]));
    assert(!prefixed_keys(m, seq![TAG_BITMAP]).contains(bitmap_key(id)));
}

/// Law: after patching a blob, reading the patched range back yields
/// exactly the patch, for any offset that keeps the patch in range.
pub proof fn lemma_patch_round_trip(v: Seq<u8>, off: int, p: Seq<u8>)
    requires
        0 <= off,
        off + p.len() <= v.len(),
    ensures
        splice(v, off, p).len() == v.len(),
        splice(v, off, p).subrange(off, off + p.len()) == p,
{
    assert_seqs_equal!(splice(v, off, p).subrange(off, off + p.len()) == p);
}

/// Law: deleting a sprite twice leaves the store exactly as deleting it
/// once does.
pub proof fn lemma_delete_idempotent(m: Map<Seq<u8>, Seq<u8>>, id: u8)
    ensures
        ({
            let once = m.remove(bitmap_key(id)).remove(meta_key(id));
            once.remove(bitmap_key(id)).remove(meta_key(id)) == once
        }),
{
    let once = m.remove(bitmap_key(id)).remove(meta_key(id));
    assert_maps_equal!(once.remove(bitmap_key(id)).remove(meta_key(id)), once);
}

/// Every kind of store key is told apart by its tag byte, and keys of one
/// kind by their identifier byte.
pub proof fn lemma_keys_distinct(a: u8, b: u8)
    ensures
        reg_key(a) != meta_key(b),
        reg_key(a) != bitmap_key(b),
        meta_key(a) != bitmap_key(b),
        a != b ==> reg_key(a) != reg_key(b),
        a != b ==> meta_key(a) != meta_key(b),
        a != b ==> bitmap_key(a) != bitmap_key(b),
{
    assert(reg_key(a)[0] == TAG_REG && reg_key(b)[1] == b && reg_key(a)[1] == a);
    assert(meta_key(b)[0] == TAG_META && meta_key(a)[0] == TAG_META && meta_key(a)[1] == a
        && meta_key(b)[1] == b);
    assert(bitmap_key(b)[0] == TAG_BITMAP && bitmap_key(a)[0] == TAG_BITMAP && bitmap_key(a)[1]
        == a && bitmap_key(b)[1] == b);
}

/// A step that leaves the persisted association and every value-region
/// address in place resolves every sprite as before.
proof fn lemma_sprites_preserved(pre: AssetStore, post: AssetStore)
    requires
        post.kv() == pre.kv(),
        same_addrs(&pre.kv, &post.kv),
    ensures
        forall|id: u8| #[trigger] post.spec_sprite(id) == pre.spec_sprite(id),
{
    assert forall|id: u8| #[trigger] post.spec_sprite(id) == pre.spec_sprite(id) by {
        assert(kv_val_addr(&post.kv, bitmap_key(id)) == kv_val_addr(&pre.kv, bitmap_key(id)));
    }
}

/// A step that only adds, refreshes or removes a binding whose key is
/// no sprite key resolves every sprite as before.
proof fn lemma_other_key_preserves_sprites(pre: AssetStore, post: AssetStore, key: Seq<u8>)
    requires
        forall|k: Seq<u8>|
            k != key ==> (#[trigger] post.kv().dom().contains(k) <==> pre.kv().dom().contains(k)),
        forall|k: Seq<u8>|
            k != key && pre.kv().dom().contains(k) ==> #[trigger] post.kv()[k] == pre.kv()[k],
        same_addrs_except(&pre.kv, &post.kv, key),
        forall|id: u8| key != meta_key(id) && key != bitmap_key(id),
    ensures
        forall|id: u8| #[trigger] post.spec_sprite(id) == pre.spec_sprite(id),
{
    assert forall|id: u8| #[trigger] post.spec_sprite(id) == pre.spec_sprite(id) by {
        assert(key != meta_key(id) && key != bitmap_key(id));
        assert(kv_val_addr(&post.kv, bitmap_key(id)) == kv_val_addr(&pre.kv, bitmap_key(id)));
        assert(post.kv().dom().contains(meta_key(id)) <==> pre.kv().dom().contains(meta_key(id)));
        assert(post.kv().dom().contains(bitmap_key(id)) <==> pre.kv().dom().contains(
            bitmap_key(id),
        ));
        if pre.kv().dom().contains(meta_key(id)) {
            assert(post.kv()[meta_key(id)] == pre.kv()[meta_key(id)]);
        }
    }
}

/// The value regions of the flash image lie where they lay.
pub closed spec fn layout_preserved(pre: &AssetStore, post: &AssetStore) -> bool {
    same_addrs(&pre.kv, &post.kv)
}

/// An untouched store trivially preserves its layout.
pub proof fn lemma_layout_preserved_refl(a: AssetStore)
    ensures
        layout_preserved(&a, &a),
{
}

/// A preserved layout is transitive across consecutive steps.
pub proof fn lemma_layout_preserved_trans(a: AssetStore, b: AssetStore, c: AssetStore)
    requires
        layout_preserved(&a, &b),
        layout_preserved(&b, &c),
    ensures
        layout_preserved(&a, &c),
{
    assert forall|k: Seq<u8>| #[trigger]
        kv_val_addr(&c.kv, k) == kv_val_addr(&a.kv, k) by {
        assert(kv_val_addr(&b.kv, k) == kv_val_addr(&a.kv, k));
    }
}

/// A preserved layout keeps every value-region address in place.
pub proof fn lemma_layout_preserved_addr(a: AssetStore, b: AssetStore, key: Seq<u8>)
    requires
        layout_preserved(&a, &b),
    ensures
        b.addr_of(key) == a.addr_of(key),
{
}

/// Law: between two lookups of a sprite without an intervening mutation
/// of the persisted store, the resolved descriptor is identical.
pub proof fn lemma_cache_correct(pre: AssetStore, post: AssetStore)
    requires
        post.kv() == pre.kv(),
        layout_preserved(&pre, &post),
    ensures
        forall|id: u8| #[trigger] post.spec_sprite(id) == pre.spec_sprite(id),
{
    lemma_sprites_preserved(pre, post);
}

/// Law: writing a register slot and then reading it back yields exactly
/// the bytes written, for every register and every 4-byte value.
pub proof fn lemma_register_round_trip(m: Map<Seq<u8>, Seq<u8>>, reg: u8, val: Seq<u8>)
    requires
        val.len() == 4,
    ensures
        m.insert(reg_key(reg), val).dom().contains(reg_key(reg)),
        pad4(m.insert(reg_key(reg), val)[reg_key(reg)]) == val,
{
    assert_seqs_equal!(pad4(val) == val);
}

} // verus!
