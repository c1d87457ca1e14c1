use fx_core::err::FxError;
use fx_core::store::{AssetStore, Size, SpriteInfo};

fn info(width: u8, height: u8, glyphs: u8) -> SpriteInfo {
    SpriteInfo { glyphs, glyph_size: Size { width, height } }
}

#[test]
fn nvm_round_trip() {
    let mut store = AssetStore::new();
    store.write_nvm(0x05, [0x11, 0x22, 0x33, 0x44]).unwrap();
    assert_eq!(store.read_nvm(0x05), Ok([0x11, 0x22, 0x33, 0x44]));
}

#[test]
fn nvm_round_trip_all_corners() {
    let mut store = AssetStore::new();
    store.write_nvm(0x00, [0, 0, 0, 0]).unwrap();
    store.write_nvm(0xFC, [255, 254, 253, 252]).unwrap();
    assert_eq!(store.read_nvm(0x00), Ok([0, 0, 0, 0]));
    assert_eq!(store.read_nvm(0xFC), Ok([255, 254, 253, 252]));
}

#[test]
fn nvm_overwrite_keeps_last_value() {
    let mut store = AssetStore::new();
    store.write_nvm(7, [1, 2, 3, 4]).unwrap();
    store.write_nvm(7, [5, 6, 7, 8]).unwrap();
    assert_eq!(store.read_nvm(7), Ok([5, 6, 7, 8]));
}

#[test]
fn nvm_missing_reports_key_not_found() {
    let mut store = AssetStore::new();
    assert_eq!(store.read_nvm(0x09), Err(FxError::StoreKeyNotFound));
}

#[test]
fn create_then_get_returns_info_and_counts() {
    let mut store = AssetStore::new();
    assert_eq!(store.get_sprites_count(), 0);
    store.create_sprite(3, info(8, 8, 2)).unwrap();
    assert_eq!(store.get_sprites_count(), 1);
    let s = store.get_sprite(3).expect("sprite 3 resolves");
    assert_eq!(s.sprite_id, 3);
    assert_eq!(s.info, info(8, 8, 2));
    store.create_sprite(4, info(16, 8, 1)).unwrap();
    assert_eq!(store.get_sprites_count(), 2);
}

#[test]
fn create_recreate_same_id_keeps_count() {
    let mut store = AssetStore::new();
    store.create_sprite(3, info(8, 8, 2)).unwrap();
    store.create_sprite(3, info(16, 16, 1)).unwrap();
    assert_eq!(store.get_sprites_count(), 1);
    assert_eq!(store.get_sprite(3).unwrap().info, info(16, 16, 1));
}

#[test]
fn create_oversized_bitmap_is_invalid_length() {
    let mut store = AssetStore::new();
    // 255 x 255 pixels over 255 glyphs: far past what one value can hold.
    assert_eq!(store.create_sprite(1, info(255, 255, 255)), Err(FxError::StoreInvalidLength));
    assert_eq!(store.get_sprites_count(), 0);
}

#[test]
fn patch_round_trip_reads_back_raw() {
    let mut store = AssetStore::new();
    store.create_sprite(7, info(8, 8, 2)).unwrap();
    let bytes: Vec<u8> = (0u8..16).collect();
    store.patch_sprite_bitmap(7, 0, &bytes).unwrap();
    let patch = [0xAA, 0xBB, 0xCC];
    store.patch_sprite_bitmap(7, 5, &patch).unwrap();
    let s = store.get_sprite(7).unwrap();
    let mut buf = vec![0u8; 3];
    store.read(s.addr + 5, &mut buf).unwrap();
    assert_eq!(buf, vec![0xAA, 0xBB, 0xCC]);
    let mut head = vec![0u8; 5];
    store.read(s.addr, &mut head).unwrap();
    assert_eq!(head, vec![0, 1, 2, 3, 4]);
}

#[test]
fn patch_past_end_is_invalid_length() {
    let mut store = AssetStore::new();
    store.create_sprite(7, info(8, 8, 2)).unwrap();
    let patch = [0u8; 4];
    assert_eq!(store.patch_sprite_bitmap(7, 14, &patch), Err(FxError::StoreInvalidLength));
}

#[test]
fn patch_missing_sprite_is_key_not_found() {
    let mut store = AssetStore::new();
    assert_eq!(store.patch_sprite_bitmap(9, 0, &[1, 2]), Err(FxError::StoreKeyNotFound));
}

#[test]
fn repeated_lookup_is_identical() {
    let mut store = AssetStore::new();
    store.create_sprite(5, info(8, 8, 1)).unwrap();
    let a = store.get_sprite(5).unwrap();
    let b = store.get_sprite(5).unwrap();
    let c = store.get_sprite(5).unwrap();
    assert_eq!(a, b);
    assert_eq!(b, c);
}

#[test]
fn every_mutation_clears_the_cache() {
    let mut store = AssetStore::new();
    store.create_sprite(1, info(8, 8, 1)).unwrap();
    store.create_sprite(2, info(8, 8, 1)).unwrap();

    store.get_sprite(1).unwrap();
    assert_eq!(store.cached_ids(), vec![1]);
    store.create_sprite(3, info(8, 8, 1)).unwrap();
    assert_eq!(store.cached_ids(), Vec::<u8>::new());

    store.get_sprite(1).unwrap();
    store.patch_sprite_bitmap(1, 0, &[0xFF]).unwrap();
    assert_eq!(store.cached_ids(), Vec::<u8>::new());

    store.get_sprite(1).unwrap();
    store.delete_sprite(2).unwrap();
    assert_eq!(store.cached_ids(), Vec::<u8>::new());

    store.get_sprite(1).unwrap();
    store.delete_all_sprites().unwrap();
    assert_eq!(store.cached_ids(), Vec::<u8>::new());
}

#[test]
fn lru_eviction_with_two_slots() {
    let mut store = AssetStore::with_cache_size(2);
    store.create_sprite(1, info(8, 8, 1)).unwrap();
    store.create_sprite(2, info(8, 8, 1)).unwrap();
    store.create_sprite(3, info(8, 8, 1)).unwrap();
    store.get_sprite(1).unwrap();
    store.get_sprite(2).unwrap();
    store.get_sprite(3).unwrap();
    assert_eq!(store.cached_ids(), vec![3, 2]);
    store.get_sprite(1).unwrap();
    assert_eq!(store.cached_ids(), vec![1, 3]);
}

#[test]
fn cache_hit_moves_to_front() {
    let mut store = AssetStore::with_cache_size(3);
    store.create_sprite(1, info(8, 8, 1)).unwrap();
    store.create_sprite(2, info(8, 8, 1)).unwrap();
    store.get_sprite(1).unwrap();
    store.get_sprite(2).unwrap();
    assert_eq!(store.cached_ids(), vec![2, 1]);
    store.get_sprite(1).unwrap();
    assert_eq!(store.cached_ids(), vec![1, 2]);
}

#[test]
fn delete_is_idempotent() {
    let mut store = AssetStore::new();
    store.create_sprite(6, info(8, 8, 1)).unwrap();
    assert_eq!(store.delete_sprite(6), Ok(()));
    assert_eq!(store.get_sprite(6), None);
    assert_eq!(store.get_sprites_count(), 0);
    assert_eq!(store.delete_sprite(6), Ok(()));
    assert_eq!(store.get_sprite(6), None);
    assert_eq!(store.get_sprites_count(), 0);
}

#[test]
fn delete_all_spares_registers() {
    let mut store = AssetStore::new();
    store.write_nvm(9, [9, 9, 9, 9]).unwrap();
    store.create_sprite(1, info(8, 8, 1)).unwrap();
    store.create_sprite(2, info(16, 8, 2)).unwrap();
    store.create_sprite(3, info(8, 16, 3)).unwrap();
    assert_eq!(store.get_sprites_count(), 3);
    store.delete_all_sprites().unwrap();
    assert_eq!(store.get_sprites_count(), 0);
    assert_eq!(store.get_sprite(1), None);
    assert_eq!(store.get_sprite(2), None);
    assert_eq!(store.get_sprite(3), None);
    assert_eq!(store.read_nvm(9), Ok([9, 9, 9, 9]));
}

#[test]
fn unknown_sprite_resolves_to_none() {
    let mut store = AssetStore::new();
    assert_eq!(store.get_sprite(99), None);
}

#[test]
fn glyph_lengths_derive_from_size() {
    let i = info(8, 8, 2);
    assert_eq!(i.glyph_len(), 8);
    assert_eq!(i.bitmap_len(), 16);
    let j = info(36, 32, 11);
    assert_eq!(j.glyph_len(), 144);
    assert_eq!(j.bitmap_len(), 1584);
}

#[test]
fn raw_read_out_of_bounds_is_bus_io() {
    let mut store = AssetStore::new();
    let mut buf = vec![0u8; 8];
    assert_eq!(store.read(0x20000 - 4, &mut buf), Err(FxError::BusIo));
}
