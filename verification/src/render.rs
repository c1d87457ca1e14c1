//! Render pipeline: the bounded request queue and the glyph renderer.
//!
//! A render request names a sprite, a glyph and an origin.  The renderer
//! resolves the sprite through the asset store's descriptor cache,
//! validates the glyph, streams the glyph's bytes out of the bitmap
//! blob and produces the drawing order for the display.  Anything that
//! does not resolve or validate is dropped silently.

use vstd::prelude::*;

use crate::config::{FLASH_SIZE, MAX_GLYPH_BYTES, RENDER_QUEUE_CAP};
use crate::display::{Bounds, DrawCall};
use crate::err::FxError;
use crate::server::RenderRequest;
use crate::store::{
    bitmap_key, cache_after_get, layout_preserved, lemma_layout_preserved_addr,
    lemma_layout_preserved_trans, AssetStore,
};

verus! {

/// The bounded FIFO between the bus handler and the render task.  A
/// request pushed onto a full queue is dropped with `QueueOverflow`.
pub struct RenderQueue {
    items: Vec<RenderRequest>,
    cap: usize,
}

impl RenderQueue {
    /// The queued requests, oldest first.
    pub closed spec fn view_queue(&self) -> Seq<RenderRequest> {
        self.items@
    }

    /// The queue's fixed capacity.
    pub closed spec fn spec_capacity(&self) -> int {
        self.cap as int
    }

    /// The queue never outgrows its capacity.
    pub closed spec fn wf(&self) -> bool {
        self.items@.len() <= self.cap && self.cap >= 1
    }

    /// An empty queue with the default capacity.
    pub fn new() -> (r: RenderQueue)
        ensures
            r.wf(),
            r.view_queue() == Seq::<RenderRequest>::empty(),
            r.spec_capacity() == RENDER_QUEUE_CAP,
    {
        Self::with_capacity(RENDER_QUEUE_CAP)
    }

    /// An empty queue with the given capacity.
    pub fn with_capacity(cap: usize) -> (r: RenderQueue)
        requires
            cap >= 1,
        ensures
            r.wf(),
            r.view_queue() == Seq::<RenderRequest>::empty(),
            r.spec_capacity() == cap,
    {
        RenderQueue { items: Vec::new(), cap }
    }

    /// How many requests wait in the queue.
    pub fn len(&self) -> (r: usize)
        ensures
            r == self.view_queue().len(),
    {
        self.items.len()
    }

    /// Enqueue a request; a full queue drops it and reports overflow.
    pub fn push(&mut self, req: RenderRequest) -> (r: Result<(), FxError>)
        requires
            old(self).wf(),
        ensures
            final(self).wf(),
            final(self).spec_capacity() == old(self).spec_capacity(),
            old(self).view_queue().len() < old(self).spec_capacity() ==> r is Ok && final(self).view_queue() == old(self).view_queue().push(req),
            old(self).view_queue().len() >= old(self).spec_capacity() ==> (r matches Err(e) && e
                == FxError::QueueOverflow) && final(self).view_queue() == old(self).view_queue(),
    {
        if self.items.len() < self.cap {
            self.items.push(req);
            Ok(())
        } else {
            Err(FxError::QueueOverflow)
        }
    }

    /// Dequeue the oldest request, if any.
    pub fn pop(&mut self) -> (r: Option<RenderRequest>)
        requires
            old(self).wf(),
        ensures
            final(self).wf(),
            final(self).spec_capacity() == old(self).spec_capacity(),
            old(self).view_queue().len() == 0 ==> r is None && final(self).view_queue() == old(self).view_queue(),
            old(self).view_queue().len() > 0 ==> (r matches Some(q) && q == old(self).view_queue()[0]) && final(self).view_queue() == old(self).view_queue().drop_first(),
    {
        if self.items.len() == 0 {
            None
        } else {
            let q = self.items.remove(0);
            proof {
                assert(self.items@ =~= old(self).view_queue().drop_first());
            }
            Some(q)
        }
    }
}

/// Resolve and validate one render request and produce the drawing
/// order, or drop it: an unknown sprite, an out-of-range glyph, a glyph
/// above the streaming limit or a blob too short for the glyph all
/// yield nothing, and the store is never modified (only its descriptor
/// cache reorders).
pub fn render(store: &mut AssetStore, req: &RenderRequest) -> (r: Option<DrawCall>)
    requires
        old(store).wf(),
    ensures
        final(store).wf(),
        final(store).kv() == old(store).kv(),
        layout_preserved(old(store), final(store)),
        final(store).cache_capacity() == old(store).cache_capacity(),
        forall|x: u8| #[trigger] final(store).spec_sprite(x) == old(store).spec_sprite(x),
        old(store).spec_sprite(req.sprite_id) is None ==> r is None && final(store).cache_view()
            == old(store).cache_view(),
        old(store).spec_sprite(req.sprite_id) matches Some(s) ==> final(store).cache_view()
            == cache_after_get(old(store).cache_view(), s, old(store).cache_capacity()),
        old(store).spec_sprite(req.sprite_id) matches Some(s) ==> (!(req.glyph < s.info.glyphs
            && s.info.spec_glyph_len() <= MAX_GLYPH_BYTES && (req.glyph + 1)
            * s.info.spec_glyph_len() <= old(store).kv()[bitmap_key(req.sprite_id)].len())
            ==> r is None),
        old(store).spec_sprite(req.sprite_id) matches Some(s) ==> ((req.glyph < s.info.glyphs
            && s.info.spec_glyph_len() <= MAX_GLYPH_BYTES && (req.glyph + 1)
            * s.info.spec_glyph_len() <= old(store).kv()[bitmap_key(req.sprite_id)].len()) ==> (
        r matches Some(dc) && dc.bounds == (Bounds {
            x: req.x,
            y: req.y,
            width: s.info.glyph_size.width,
            height: s.info.glyph_size.height,
        }) && dc.bitmap@ == old(store).kv()[bitmap_key(req.sprite_id)].subrange(
            req.glyph * s.info.spec_glyph_len(),
            (req.glyph + 1) * s.info.spec_glyph_len(),
        ))),
{
    let ghost bk = bitmap_key(req.sprite_id);
    let s = match store.get_sprite(req.sprite_id) {
        Some(s) => s,
        None => {
            return None;
        }
    };
    let ghost st1 = *store;
    let glen = s.info.glyph_len();
    if !(req.glyph < s.info.glyphs) {
        return None;
    }
    if glen > MAX_GLYPH_BYTES {
        return None;
    }
    let blen = match store.blob_len(req.sprite_id) {
        Some(l) => l,
        None => {
            proof {
                lemma_layout_preserved_trans(*old(store), st1, *store);
            }
            return None;
        }
    };
    let ghost st2 = *store;
    proof {
        lemma_layout_preserved_trans(*old(store), st1, st2);
        lemma_layout_preserved_addr(*old(store), st1, bk);
        s.info.lemma_len_bounds();
        assert((req.glyph as int + 1) * s.info.spec_glyph_len() <= 256 * 8128) by (nonlinear_arith)
            requires
                0 <= req.glyph as int + 1 <= 256,
                0 <= s.info.spec_glyph_len() <= 8128,
        ;
        assert(0 <= (req.glyph as int) * s.info.spec_glyph_len() <= (req.glyph as int + 1)
            * s.info.spec_glyph_len()) by (nonlinear_arith)
            requires
                0 <= req.glyph as int,
                0 <= s.info.spec_glyph_len(),
        ;
        assert((req.glyph as int) * s.info.spec_glyph_len() + s.info.spec_glyph_len() == (
        req.glyph as int + 1) * s.info.spec_glyph_len()) by (nonlinear_arith);
        assert(s.addr == old(store).addr_of(bk));
        assert(old(store).addr_of(bk) + blen <= FLASH_SIZE);
    }
    let end = (req.glyph as usize + 1) * glen;
    if end > blen {
        return None;
    }
    let addr = s.addr + (req.glyph as usize) * glen;
    let mut buf: Vec<u8> = vec![0u8; glen];
    let rd = store.read(addr, &mut buf);
    proof {
        lemma_layout_preserved_trans(*old(store), st2, *store);
        lemma_layout_preserved_addr(*old(store), st2, bk);
    }
    match rd {
        Ok(()) => {}
        Err(_) => {
            return None;
        }
    }
    let bounds = Bounds {
        x: req.x,
        y: req.y,
        width: s.info.glyph_size.width,
        height: s.info.glyph_size.height,
    };
    Some(DrawCall { bounds, bitmap: buf })
}

} // verus!
