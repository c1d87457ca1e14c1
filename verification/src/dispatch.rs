//! Request dispatch: the read and write register tables and the glue
//! that applies a decoded request to the store, the display, the render
//! queue and the control inputs.

use vstd::prelude::*;

use crate::controls::{Encoder, Gpio};
use crate::display::{backlight_duty, Bounds, DisplayController};
use crate::config::{KVS_MAX_VALUE, MAX_GLYPH_BYTES};
use crate::err::FxError;
use crate::render::{render, RenderQueue};
use crate::server::{I2CServer, Request};
use crate::kv::prefixed_keys;
use crate::store::{
    bitmap_key, layout_preserved, lemma_layout_preserved_refl, meta_key, pad4, reg_key,
    AssetStore, TAG_BITMAP,
};

verus! {

/// Read or write this register to reach the display configuration.
pub const REG_DISPLAY_CONFIG: u8 = 0xFF;

/// Read this register for the first GPIO group's edge counters.
pub const REG_GPIO_A: u8 = 0xFE;

/// Read this register for the second GPIO group's edge counters.
pub const REG_GPIO_B: u8 = 0xFD;

/// Read this register for the encoder snapshot.
pub const REG_ENCODER: u8 = 0xFC;

/// The sentinel a failed register read returns.
pub open spec fn sentinel4() -> Seq<u8> {
    seq![255u8, 255u8, 255u8, 255u8]
}

/// The sprite count squeezed into the config word's last byte.
pub open spec fn sprite_count_byte(m: Map<Seq<u8>, Seq<u8>>) -> u8 {
    if prefixed_keys(m, seq![TAG_BITMAP]).len() > 255 {
        255u8
    } else {
        prefixed_keys(m, seq![TAG_BITMAP]).len() as u8
    }
}

/// The wire form of one GPIO group: falling count in the low nibble,
/// rising count in the high nibble, one byte per line.
pub open spec fn gpio_bytes(falling: Seq<u8>, rising: Seq<u8>) -> Seq<u8> {
    seq![
        falling[0] | rising[0] << 4,
        falling[1] | rising[1] << 4,
        falling[2] | rising[2] << 4,
        falling[3] | rising[3] << 4,
    ]
}

/// The wire form of an encoder snapshot.
pub open spec fn encoder_bytes(e: Encoder) -> Seq<u8> {
    seq![
        (e.count / 2 / 256) as u8,
        ((e.count / 2) % 256) as u8,
        (if e.downcounting {
            1u8
        } else {
            0u8
        }),
        0u8,
    ]
}

/// The read register table: what a `ReadRegister` pre-fetches, given the
/// persisted store, the display configuration, both GPIO groups and the
/// optional encoder.
pub open spec fn spec_prefetch(
    reg: u8,
    m: Map<Seq<u8>, Seq<u8>>,
    cfg: Seq<u8>,
    ga_falling: Seq<u8>,
    ga_rising: Seq<u8>,
    gb_falling: Seq<u8>,
    gb_rising: Seq<u8>,
    enc: Option<Encoder>,
) -> Seq<u8> {
    if reg == REG_DISPLAY_CONFIG {
        seq![cfg[0], cfg[1], cfg[2], sprite_count_byte(m)]
    } else if reg == REG_GPIO_A {
        gpio_bytes(ga_falling, ga_rising)
    } else if reg == REG_GPIO_B {
        gpio_bytes(gb_falling, gb_rising)
    } else if reg == REG_ENCODER {
        match enc {
            Some(e) => encoder_bytes(e),
            None => sentinel4(),
        }
    } else if m.dom().contains(reg_key(reg)) {
        pad4(m[reg_key(reg)])
    } else {
        sentinel4()
    }
}

/// Pre-fetch the response for a `ReadRegister` request, as the read
/// register table prescribes.  Reading a GPIO group clears its counters;
/// everything else is read-only.
pub fn prefetch_response(
    reg: u8,
    store: &mut AssetStore,
    display: &DisplayController,
    gpio_a: &mut Gpio,
    gpio_b: &mut Gpio,
    encoder: Option<&Encoder>,
) -> (r: [u8; 4])
    requires
        old(store).wf(),
        old(gpio_a).wf(),
        old(gpio_b).wf(),
    ensures
        final(store).wf(),
        final(gpio_a).wf(),
        final(gpio_b).wf(),
        final(store).kv() == old(store).kv(),
        layout_preserved(old(store), final(store)),
        final(store).cache_view() == old(store).cache_view(),
        final(store).cache_capacity() == old(store).cache_capacity(),
        forall|x: u8| #[trigger] final(store).spec_sprite(x) == old(store).spec_sprite(x),
        encoder is None ==> r@ == spec_prefetch(
            reg,
            old(store).kv(),
            display.spec_config(),
            old(gpio_a).spec_falling(),
            old(gpio_a).spec_rising(),
            old(gpio_b).spec_falling(),
            old(gpio_b).spec_rising(),
            None,
        ),
        encoder matches Some(e) ==> r@ == spec_prefetch(
            reg,
            old(store).kv(),
            display.spec_config(),
            old(gpio_a).spec_falling(),
            old(gpio_a).spec_rising(),
            old(gpio_b).spec_falling(),
            old(gpio_b).spec_rising(),
            Some(*e),
        ),
        reg == REG_GPIO_A ==> final(gpio_a).spec_falling() == seq![0u8, 0u8, 0u8, 0u8] && final(gpio_a).spec_rising() == seq![0u8, 0u8, 0u8, 0u8],
        reg != REG_GPIO_A ==> final(gpio_a).spec_falling() == old(gpio_a).spec_falling() && final(gpio_a).spec_rising() == old(gpio_a).spec_rising(),
        reg == REG_GPIO_B ==> final(gpio_b).spec_falling() == seq![0u8, 0u8, 0u8, 0u8] && final(gpio_b).spec_rising() == seq![0u8, 0u8, 0u8, 0u8],
        reg != REG_GPIO_B ==> final(gpio_b).spec_falling() == old(gpio_b).spec_falling() && final(gpio_b).spec_rising() == old(gpio_b).spec_rising(),
{
    proof {
        lemma_layout_preserved_refl(*old(store));
    }
    if reg == REG_DISPLAY_CONFIG {
        let cfg = display.config();
        let count = store.get_sprites_count();
        let c: u8 = if count > 255 {
            255
        } else {
            count as u8
        };
        let r: [u8; 4] = [cfg[0], cfg[1], cfg[2], c];
        proof {
            assert(r@ =~= seq![
                display.spec_config()[0],
                display.spec_config()[1],
                display.spec_config()[2],
                sprite_count_byte(old(store).kv()),
            ]);
        }
        r
    } else if reg == REG_GPIO_A {
        let r = gpio_a.as_bytes();
        proof {
            assert(r@ =~= gpio_bytes(old(gpio_a).spec_falling(), old(gpio_a).spec_rising()));
        }
        r
    } else if reg == REG_GPIO_B {
        let r = gpio_b.as_bytes();
        proof {
            assert(r@ =~= gpio_bytes(old(gpio_b).spec_falling(), old(gpio_b).spec_rising()));
        }
        r
    } else if reg == REG_ENCODER {
        match encoder {
            Some(e) => {
                let r = e.as_bytes();
                proof {
                    assert(r@ =~= encoder_bytes(*e));
                }
                r
            }
            None => {
                let r: [u8; 4] = [255, 255, 255, 255];
                proof {
                    assert(r@ =~= sentinel4());
                }
                r
            }
        }
    } else {
        match store.read_nvm(reg) {
            Ok(v) => v,
            Err(_) => {
                let r: [u8; 4] = [255, 255, 255, 255];
                proof {
                    assert(r@ =~= sentinel4());
                }
                r
            }
        }
    }
}

/// Apply a `WriteRegister` request, as the write register table
/// prescribes: the display configuration register drives the display,
/// registers below the reserved band persist to the store, and writes to
/// the reserved band are ignored.
pub fn dispatch_write(
    reg: u8,
    val: [u8; 4],
    store: &mut AssetStore,
    display: &mut DisplayController,
) -> (r: Result<(), FxError>)
    requires
        old(store).wf(),
    ensures
        final(store).wf(),
        final(store).cache_view() == old(store).cache_view(),
        final(store).cache_capacity() == old(store).cache_capacity(),
        forall|x: u8| #[trigger] final(store).spec_sprite(x) == old(store).spec_sprite(x),
        reg == REG_DISPLAY_CONFIG ==> r is Ok && final(store).kv() == old(store).kv() && final(display).spec_config() == val@ && final(display).spec_powered() == (val@[0] & 1 == 1) && final(display).spec_duty() == backlight_duty(val@[1], old(display).spec_max_duty()),
        reg < REG_GPIO_B ==> *final(display) == *old(display) && (old(store).has_room(
            reg_key(reg),
            4,
        ) ==> r is Ok) && (r is Ok ==> final(store).kv() == old(store).kv().insert(
            reg_key(reg),
            val@,
        )) && (r matches Err(e) ==> e == FxError::StoreFull && final(store).kv() == old(store).kv().remove(reg_key(reg))),
        reg == REG_GPIO_B || reg == REG_GPIO_A ==> r is Ok && final(store).kv() == old(store).kv()
            && *final(display) == *old(display),
{
    if reg == REG_DISPLAY_CONFIG {
        display.set_config(val);
        Ok(())
    } else if reg < REG_GPIO_B {
        store.write_nvm(reg, val)
    } else {
        Ok(())
    }
}

/// Apply one decoded request: pre-fetch a read, dispatch a write, run a
/// sprite mutation with the server's payload, or queue a render.  Store
/// faults are reported to the caller for logging and never to the host.
pub fn apply_request(
    req: &Request,
    server: &mut I2CServer,
    store: &mut AssetStore,
    display: &mut DisplayController,
    queue: &mut RenderQueue,
    gpio_a: &mut Gpio,
    gpio_b: &mut Gpio,
    encoder: Option<&Encoder>,
) -> (r: Result<(), FxError>)
    requires
        old(server).wf(),
        old(store).wf(),
        old(queue).wf(),
        old(gpio_a).wf(),
        old(gpio_b).wf(),
    ensures
        final(server).wf(),
        final(store).wf(),
        final(queue).wf(),
        final(gpio_a).wf(),
        final(gpio_b).wf(),
        final(server).mode == old(server).mode,
        final(server).payload@ == old(server).payload@,
        final(store).cache_capacity() == old(store).cache_capacity(),
        final(queue).spec_capacity() == old(queue).spec_capacity(),
        !(*req matches Request::ReadRegister(_)) ==> final(server).response == old(server).response,
        *req matches Request::Render(rr) ==> ({
            &&& *final(store) == *old(store)
            &&& old(queue).view_queue().len() < old(queue).spec_capacity() ==> r is Ok && final(queue).view_queue() == old(queue).view_queue().push(rr)
            &&& old(queue).view_queue().len() >= old(queue).spec_capacity() ==> (r matches Err(e)
                && e == FxError::QueueOverflow) && final(queue).view_queue() == old(queue).view_queue()
        }),
        !(*req matches Request::Render(_)) ==> final(queue).view_queue() == old(queue).view_queue(),
        *req matches Request::ReadRegister(rg) ==> ({
            &&& r is Ok
            &&& final(store).kv() == old(store).kv()
            &&& final(store).cache_view() == old(store).cache_view()
            &&& (encoder is None ==> final(server).response@ == spec_prefetch(
                rg,
                old(store).kv(),
                old(display).spec_config(),
                old(gpio_a).spec_falling(),
                old(gpio_a).spec_rising(),
                old(gpio_b).spec_falling(),
                old(gpio_b).spec_rising(),
                None,
            ))
            &&& (encoder matches Some(e) ==> final(server).response@ == spec_prefetch(
                rg,
                old(store).kv(),
                old(display).spec_config(),
                old(gpio_a).spec_falling(),
                old(gpio_a).spec_rising(),
                old(gpio_b).spec_falling(),
                old(gpio_b).spec_rising(),
                Some(*e),
            ))
        }),
        *req matches Request::WriteRegister(rg, v) ==> ({
            &&& final(store).cache_view() == old(store).cache_view()
            &&& (rg == REG_DISPLAY_CONFIG ==> r is Ok && final(store).kv() == old(store).kv()
                && final(display).spec_config() == v@)
            &&& (rg < REG_GPIO_B ==> (old(store).has_room(reg_key(rg), 4) ==> r is Ok) && (
            r is Ok ==> final(store).kv() == old(store).kv().insert(reg_key(rg), v@)) && (
            r matches Err(e) ==> e == FxError::StoreFull && final(store).kv() == old(store).kv().remove(reg_key(rg))))
            &&& (rg == REG_GPIO_A || rg == REG_GPIO_B ==> r is Ok && final(store).kv() == old(store).kv())
        }),
        *req matches Request::CreateSprite(id, info) ==> ({
            &&& final(store).cache_view() == Seq::<crate::store::Sprite>::empty()
            &&& (r is Ok ==> (exists|v: Seq<u8>|
                v.len() == info.spec_bitmap_len() && final(store).kv() == old(store).kv().insert(
                    bitmap_key(id),
                    v,
                ).insert(meta_key(id), crate::store::encode_info(info))))
            &&& ((r matches Err(e) && e == FxError::StoreInvalidLength) <==> info.spec_bitmap_len()
                > KVS_MAX_VALUE)
            &&& ((r matches Err(e) && e == FxError::StoreFull) ==> final(store).kv() == old(store).kv().remove(bitmap_key(id)).remove(meta_key(id)))
        }),
        *req matches Request::PatchSprite(id, off) ==> ({
            &&& final(store).cache_view() == Seq::<crate::store::Sprite>::empty()
            &&& (old(store).kv().dom().contains(bitmap_key(id)) && off + old(server).payload@.len() <= old(store).kv()[bitmap_key(id)].len() ==> r is Ok && final(store).kv() == old(store).kv().insert(
                bitmap_key(id),
                crate::kv::splice(old(store).kv()[bitmap_key(id)], off as int, old(server).payload@),
            ))
            &&& (!old(store).kv().dom().contains(bitmap_key(id)) ==> final(store).kv() == old(store).kv())
        }),
        *req matches Request::DeleteSprite(id) ==> ({
            &&& final(store).cache_view() == Seq::<crate::store::Sprite>::empty()
            &&& r is Ok
            &&& final(store).kv() == old(store).kv().remove(bitmap_key(id)).remove(meta_key(id))
        }),
{
    match req {
        Request::Render(rr) => queue.push(*rr),
        Request::ReadRegister(rg) => {
            let resp = prefetch_response(*rg, store, display, gpio_a, gpio_b, encoder);
            server.set_response(resp);
            Ok(())
        }
        Request::WriteRegister(rg, v) => dispatch_write(*rg, *v, store, display),
        Request::CreateSprite(id, info) => store.create_sprite(*id, *info),
        Request::PatchSprite(id, off) => {
            let payload = server.get_payload();
            store.patch_sprite_bitmap(*id, *off, payload)
        }
        Request::DeleteSprite(id) => store.delete_sprite(*id),
    }
}

/// One round of the render task: pull the oldest queued request and run
/// it.  A request that resolves to a stored sprite and a valid glyph
/// must end in a drawing order carrying that glyph's bytes; anything
/// else leaves the display untouched.  Reports whether a request was
/// pulled.
pub fn render_tick(
    store: &mut AssetStore,
    display: &mut DisplayController,
    queue: &mut RenderQueue,
) -> (r: bool)
    requires
        old(store).wf(),
        old(queue).wf(),
    ensures
        final(store).wf(),
        final(queue).wf(),
        final(store).kv() == old(store).kv(),
        layout_preserved(old(store), final(store)),
        final(store).cache_capacity() == old(store).cache_capacity(),
        forall|x: u8| #[trigger] final(store).spec_sprite(x) == old(store).spec_sprite(x),
        final(queue).spec_capacity() == old(queue).spec_capacity(),
        r == (old(queue).view_queue().len() > 0),
        old(queue).view_queue().len() == 0 ==> final(queue).view_queue() == old(queue).view_queue() && *final(store) == *old(store) && *final(display) == *old(display),
        old(queue).view_queue().len() > 0 ==> final(queue).view_queue() == old(queue).view_queue().drop_first(),
        old(queue).view_queue().len() > 0 && old(store).spec_sprite(
            old(queue).view_queue()[0].sprite_id,
        ) is None ==> *final(display) == *old(display),
        old(queue).view_queue().len() > 0 ==> ({
            let q0 = old(queue).view_queue()[0];
            &&& (old(store).spec_sprite(q0.sprite_id) matches Some(s) ==> (!(q0.glyph
                < s.info.glyphs && s.info.spec_glyph_len() <= MAX_GLYPH_BYTES && (q0.glyph + 1)
                * s.info.spec_glyph_len() <= old(store).kv()[bitmap_key(q0.sprite_id)].len())
                ==> *final(display) == *old(display)))
            &&& (old(store).spec_sprite(q0.sprite_id) matches Some(s) ==> ((q0.glyph
                < s.info.glyphs && s.info.spec_glyph_len() <= MAX_GLYPH_BYTES && (q0.glyph + 1)
                * s.info.spec_glyph_len() <= old(store).kv()[bitmap_key(q0.sprite_id)].len())
                ==> ((final(display).spec_last_draw() matches Some(dc) && dc.bounds == (Bounds {
                    x: q0.x,
                    y: q0.y,
                    width: s.info.glyph_size.width,
                    height: s.info.glyph_size.height,
                }) && dc.bitmap@ == old(store).kv()[bitmap_key(q0.sprite_id)].subrange(
                    q0.glyph * s.info.spec_glyph_len(),
                    (q0.glyph + 1) * s.info.spec_glyph_len(),
                )) && final(display).spec_config() == old(display).spec_config() && final(display).spec_powered() == old(display).spec_powered() && final(display).spec_duty()
                    == old(display).spec_duty() && final(display).spec_max_duty() == old(display).spec_max_duty())))
        }),
{
    proof {
        lemma_layout_preserved_refl(*old(store));
    }
    let rr = match queue.pop() {
        Some(rr) => rr,
        None => {
            return false;
        }
    };
    match render(store, &rr) {
        Some(dc) => {
            proof {
                let s = old(store).spec_sprite(rr.sprite_id) -> Some_0;
                s.info.lemma_len_bounds();
                assert((rr.glyph + 1) * s.info.spec_glyph_len() - rr.glyph
                    * s.info.spec_glyph_len() == s.info.spec_glyph_len()) by (nonlinear_arith);
            }
            display.draw(dc);
        }
        None => {}
    }
    true
}

} // verus!
