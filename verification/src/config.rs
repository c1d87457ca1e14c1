//! Build-time constants shared between the host and the co-processor.

use vstd::prelude::*;

verus! {

/// I2C slave address of the command channel.
pub const FX_ADDRESS: u16 = 0x2A;

/// I2C slave address of the render channel (`FX_ADDRESS | 1`).
pub const RENDER_ADDRESS: u16 = 0x2B;

/// Capacity of the sprite descriptor cache.
pub const SPRITE_CACHE_SIZE: usize = 128;

/// Highest addressable flash byte (inclusive).
pub const FLASH_MAX_ADDRESS: usize = 0x1FFFF;

/// Size of the flash image in bytes (exclusive upper address bound).
pub const FLASH_SIZE: usize = 0x20000;

/// Program page size of the flash chip.
pub const FLASH_PAGE_SIZE: usize = 256;

/// Magic number of the key/value store header.
pub const KVS_MAGIC: u32 = 0x2A2B;

/// Nonce mixed into the key/value store's bucket hash.
pub const KVS_NONCE: u16 = 45033;

/// Number of hash buckets in the key/value store.
pub const KVS_BUCKETS: usize = 512;

/// Number of allocator slots in the key/value store.
pub const KVS_SLOTS: usize = 16;

/// Probe bound of a key lookup.  Deliberately the full bucket count,
/// not a narrower window: the store's allocator ignores the configured
/// bound and probes the whole bucket chain when it places a record, so
/// a lookup bounded below the bucket count could miss a key the
/// allocator placed beyond its window.  Equal bounds make every stored
/// key findable, which the store contracts depend on.  The bound is
/// internal to the co-processor and never visible to the host.
pub const KVS_MAX_HOPS: usize = KVS_BUCKETS;

/// Largest value the store can hold for a single key.
pub const KVS_MAX_VALUE: usize = 65535;

/// Largest command payload chunk the protocol carries in one packet.
pub const MAX_CHUNK: usize = 255;

/// Capacity of the bounded render queue.
pub const RENDER_QUEUE_CAP: usize = 64;

/// Largest glyph, in bytes, that the render engine will stream.
pub const MAX_GLYPH_BYTES: usize = 1024;

} // verus!
