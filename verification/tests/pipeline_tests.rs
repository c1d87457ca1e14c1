use fx_core::controls::{Edge, Encoder, Gpio};
use fx_core::display::{Bounds, DisplayController};
use fx_core::err::FxError;
use fx_core::render::{render, RenderQueue};
use fx_core::server::{I2CServer, RenderRequest, Request};
use fx_core::store::{AssetStore, Size, SpriteInfo};
use fx_core::dispatch::{apply_request, dispatch_write, prefetch_response, render_tick};

fn info(width: u8, height: u8, glyphs: u8) -> SpriteInfo {
    SpriteInfo { glyphs, glyph_size: Size { width, height } }
}

struct Rig {
    server: I2CServer,
    store: AssetStore,
    display: DisplayController,
    queue: RenderQueue,
    gpio_a: Gpio,
    gpio_b: Gpio,
}

impl Rig {
    fn new() -> Rig {
        Rig {
            server: I2CServer::new(),
            store: AssetStore::new(),
            display: DisplayController::new(1600),
            queue: RenderQueue::new(),
            gpio_a: Gpio::new(),
            gpio_b: Gpio::new(),
        }
    }

    fn command(&mut self, packet: &[u8]) -> Result<(), FxError> {
        match self.server.handle_command_packet(packet) {
            Some(req) => apply_request(
                &req,
                &mut self.server,
                &mut self.store,
                &mut self.display,
                &mut self.queue,
                &mut self.gpio_a,
                &mut self.gpio_b,
                None,
            ),
            None => Ok(()),
        }
    }

    fn render_channel(&mut self, packet: &[u8]) -> Result<(), FxError> {
        let req = self.server.handle_render_packet(packet);
        apply_request(
            &req,
            &mut self.server,
            &mut self.store,
            &mut self.display,
            &mut self.queue,
            &mut self.gpio_a,
            &mut self.gpio_b,
            None,
        )
    }
}

#[test]
fn register_round_trip_over_the_wire() {
    let mut rig = Rig::new();
    rig.command(&[0x80, 0x05]).unwrap();
    rig.command(&[0x11, 0x22, 0x33, 0x44]).unwrap();
    rig.command(&[0x00, 0x05]).unwrap();
    assert_eq!(rig.server.take_response(), [0x11, 0x22, 0x33, 0x44]);
    assert_eq!(rig.server.take_response(), [0, 0, 0, 0]);
}

#[test]
fn small_sprite_upload_and_render() {
    let mut rig = Rig::new();
    rig.command(&[0x81, 0x07]).unwrap();
    rig.command(&[0x07, 8, 8, 2]).unwrap();
    let chunk: Vec<u8> = (0u8..16).collect();
    rig.command(&chunk).unwrap();

    rig.render_channel(&[0, 0, 7, 1]).unwrap();
    assert!(render_tick(&mut rig.store, &mut rig.display, &mut rig.queue));
    let dc = rig.display.last_draw().as_ref().expect("a draw was recorded");
    assert_eq!(dc.bounds, Bounds { x: 0, y: 0, width: 8, height: 8 });
    assert_eq!(dc.bitmap, (8u8..16).collect::<Vec<u8>>());
}

#[test]
fn unknown_sprite_render_draws_nothing() {
    let mut rig = Rig::new();
    rig.render_channel(&[0, 0, 99, 0]).unwrap();
    assert!(render_tick(&mut rig.store, &mut rig.display, &mut rig.queue));
    assert!(rig.display.last_draw().is_none());
    assert!(!render_tick(&mut rig.store, &mut rig.display, &mut rig.queue));
}

#[test]
fn out_of_range_glyph_draws_nothing() {
    let mut store = AssetStore::new();
    store.create_sprite(7, info(8, 8, 2)).unwrap();
    let dc = render(&mut store, &RenderRequest { x: 0, y: 0, sprite_id: 7, glyph: 2 });
    assert!(dc.is_none());
}

#[test]
fn render_streams_glyph_zero() {
    let mut store = AssetStore::new();
    store.create_sprite(7, info(8, 8, 2)).unwrap();
    let bytes: Vec<u8> = (100u8..116).collect();
    store.patch_sprite_bitmap(7, 0, &bytes).unwrap();
    let dc = render(&mut store, &RenderRequest { x: 3, y: 4, sprite_id: 7, glyph: 0 }).unwrap();
    assert_eq!(dc.bounds, Bounds { x: 3, y: 4, width: 8, height: 8 });
    assert_eq!(dc.bitmap, (100u8..108).collect::<Vec<u8>>());
}

#[test]
fn queue_is_fifo_and_bounded() {
    let mut queue = RenderQueue::with_capacity(2);
    let a = RenderRequest { x: 0, y: 0, sprite_id: 1, glyph: 0 };
    let b = RenderRequest { x: 0, y: 0, sprite_id: 2, glyph: 0 };
    let c = RenderRequest { x: 0, y: 0, sprite_id: 3, glyph: 0 };
    assert_eq!(queue.push(a), Ok(()));
    assert_eq!(queue.push(b), Ok(()));
    assert_eq!(queue.push(c), Err(FxError::QueueOverflow));
    assert_eq!(queue.pop(), Some(a));
    assert_eq!(queue.pop(), Some(b));
    assert_eq!(queue.pop(), None);
}

#[test]
fn gpio_read_register_counts_and_clears() {
    let mut rig = Rig::new();
    rig.gpio_a.record_edge(0, Edge::Rising);
    rig.gpio_a.record_edge(0, Edge::Rising);
    rig.gpio_a.record_edge(0, Edge::Rising);
    rig.gpio_a.record_edge(0, Edge::Falling);
    rig.command(&[0x00, 0xFE]).unwrap();
    assert_eq!(rig.server.take_response(), [0x31, 0, 0, 0]);
    rig.command(&[0x00, 0xFE]).unwrap();
    assert_eq!(rig.server.take_response(), [0x00, 0, 0, 0]);
}

#[test]
fn config_register_reports_sprite_count() {
    let mut rig = Rig::new();
    rig.command(&[0x80, 0xFF]).unwrap();
    rig.command(&[0x01, 0x04, 0x00, 0x00]).unwrap();
    assert!(rig.display.is_on());
    assert_eq!(rig.display.duty(), 4 * 1600 / 16);

    rig.command(&[0x81, 0x02]).unwrap();
    rig.command(&[0x02, 8, 8, 1]).unwrap();
    rig.command(&vec![0u8; 8]).unwrap();

    rig.command(&[0x00, 0xFF]).unwrap();
    assert_eq!(rig.server.take_response(), [0x01, 0x04, 0x00, 0x01]);
}

#[test]
fn second_gpio_group_reads_at_its_own_register() {
    let mut rig = Rig::new();
    rig.gpio_b.record_edge(1, Edge::Falling);
    rig.gpio_b.record_edge(1, Edge::Rising);
    rig.command(&[0x00, 0xFD]).unwrap();
    assert_eq!(rig.server.take_response(), [0x00, 0x11, 0x00, 0x00]);
    // Group A was not disturbed by the group B read.
    rig.gpio_a.record_edge(0, Edge::Rising);
    rig.command(&[0x00, 0xFE]).unwrap();
    assert_eq!(rig.server.take_response(), [0x10, 0x00, 0x00, 0x00]);
}

#[test]
fn encoder_register_without_encoder_is_sentinel() {
    let mut rig = Rig::new();
    rig.command(&[0x00, 0xFC]).unwrap();
    assert_eq!(rig.server.take_response(), [0xFF, 0xFF, 0xFF, 0xFF]);
}

#[test]
fn encoder_register_reports_snapshot() {
    let mut server = I2CServer::new();
    let mut store = AssetStore::new();
    let display = DisplayController::new(1600);
    let mut gpio_a = Gpio::new();
    let mut gpio_b = Gpio::new();
    let mut encoder = Encoder::new();
    encoder.set_state(0x0300, true);
    let r = prefetch_response(
        0xFC,
        &mut store,
        &display,
        &mut gpio_a,
        &mut gpio_b,
        Some(&encoder),
    );
    // 0x0300 pulses halved is 0x0180, big-endian, then the direction flag.
    assert_eq!(r, [0x01, 0x80, 0x01, 0x00]);
    server.set_response(r);
    assert_eq!(server.take_response(), [0x01, 0x80, 0x01, 0x00]);
}

#[test]
fn writes_to_reserved_registers_are_ignored() {
    let mut store = AssetStore::new();
    let mut display = DisplayController::new(1600);
    assert_eq!(dispatch_write(0xFD, [1, 2, 3, 4], &mut store, &mut display), Ok(()));
    assert_eq!(dispatch_write(0xFE, [1, 2, 3, 4], &mut store, &mut display), Ok(()));
    assert_eq!(store.read_nvm(0xFD), Err(FxError::StoreKeyNotFound));
    assert_eq!(store.read_nvm(0xFE), Err(FxError::StoreKeyNotFound));
}

#[test]
fn delete_over_the_wire_removes_sprite() {
    let mut rig = Rig::new();
    rig.command(&[0x81, 0x06]).unwrap();
    rig.command(&[0x06, 8, 8, 1]).unwrap();
    rig.command(&vec![0u8; 8]).unwrap();
    assert_eq!(rig.store.get_sprites_count(), 1);
    rig.command(&[0x82, 0x06]).unwrap();
    rig.command(&[0x06, b'd', b'e', b'l']).unwrap();
    assert_eq!(rig.store.get_sprites_count(), 0);
    assert_eq!(rig.store.get_sprite(6), None);
}
