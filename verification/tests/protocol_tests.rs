use fx_core::server::{FxCommand, I2CServer, Mode, RenderRequest, Request};
use fx_core::store::{Size, SpriteInfo};

fn info(width: u8, height: u8, glyphs: u8) -> SpriteInfo {
    SpriteInfo { glyphs, glyph_size: Size { width, height } }
}

#[test]
fn command_packets_are_two_bytes() {
    let server = I2CServer::new();
    assert_eq!(server.mode.packet_len(), 2);
}

#[test]
fn read_register_emits_immediately() {
    let mut server = I2CServer::new();
    let req = server.handle_command_packet(&[0x00, 0x42]);
    assert_eq!(req, Some(Request::ReadRegister(0x42)));
    assert_eq!(server.mode, Mode::Command);
}

#[test]
fn write_register_waits_for_argument() {
    let mut server = I2CServer::new();
    assert_eq!(server.handle_command_packet(&[0x80, 0x05]), None);
    assert_eq!(server.mode, Mode::Waiting(FxCommand::WriteRegister, 0x05));
    assert_eq!(server.mode.packet_len(), 4);
    let req = server.handle_command_packet(&[0x11, 0x22, 0x33, 0x44]);
    assert_eq!(req, Some(Request::WriteRegister(0x05, [0x11, 0x22, 0x33, 0x44])));
    assert_eq!(server.mode, Mode::Command);
}

#[test]
fn unknown_opcode_stays_in_command_and_emits_nothing() {
    let mut server = I2CServer::new();
    for op in [0x01u8, 0x7F, 0x83, 0x90, 0xFF] {
        assert_eq!(server.handle_command_packet(&[op, 0x55]), None);
        assert_eq!(server.mode, Mode::Command);
        assert_eq!(server.mode.packet_len(), 2);
    }
}

#[test]
fn upload_handshake_creates_then_patches() {
    let mut server = I2CServer::new();
    assert_eq!(server.handle_command_packet(&[0x81, 0x07]), None);
    assert_eq!(server.mode, Mode::Waiting(FxCommand::UploadSprite, 0x07));
    let req = server.handle_command_packet(&[0x07, 8, 8, 2]);
    assert_eq!(req, Some(Request::CreateSprite(0x07, info(8, 8, 2))));
    assert_eq!(server.mode, Mode::Upload(0x07, info(8, 8, 2), 0));
    assert_eq!(server.mode.packet_len(), 16);
    let chunk: Vec<u8> = (0u8..16).collect();
    let req = server.handle_command_packet(&chunk);
    assert_eq!(req, Some(Request::PatchSprite(0x07, 0)));
    assert_eq!(server.mode, Mode::Command);
    assert_eq!(server.get_payload(), &chunk[..]);
}

#[test]
fn upload_id_mismatch_aborts() {
    let mut server = I2CServer::new();
    server.handle_command_packet(&[0x81, 0x04]);
    assert_eq!(server.handle_command_packet(&[0x05, 8, 8, 2]), None);
    assert_eq!(server.mode, Mode::Command);
}

#[test]
fn large_upload_chunks_at_255_with_increasing_offsets() {
    // 32 x 8 pixels = 32 bytes per glyph, 10 glyphs = 320 bytes.
    let mut server = I2CServer::new();
    server.handle_command_packet(&[0x81, 0x09]);
    let req = server.handle_command_packet(&[0x09, 32, 8, 10]);
    assert_eq!(req, Some(Request::CreateSprite(0x09, info(32, 8, 10))));
    assert_eq!(server.mode.packet_len(), 255);
    let chunk = vec![0xABu8; 255];
    assert_eq!(server.handle_command_packet(&chunk), Some(Request::PatchSprite(0x09, 0)));
    assert_eq!(server.mode.packet_len(), 65);
    let rest = vec![0xCDu8; 65];
    assert_eq!(server.handle_command_packet(&rest), Some(Request::PatchSprite(0x09, 255)));
    assert_eq!(server.mode, Mode::Command);
}

#[test]
fn delete_needs_matching_id_and_interlock() {
    let mut server = I2CServer::new();
    server.handle_command_packet(&[0x82, 0x07]);
    assert_eq!(server.handle_command_packet(&[0x07, b'x', b'y', b'z']), None);
    assert_eq!(server.mode, Mode::Command);

    server.handle_command_packet(&[0x82, 0x07]);
    assert_eq!(server.handle_command_packet(&[0x08, b'd', b'e', b'l']), None);
    assert_eq!(server.mode, Mode::Command);

    server.handle_command_packet(&[0x82, 0x07]);
    let req = server.handle_command_packet(&[0x07, b'd', b'e', b'l']);
    assert_eq!(req, Some(Request::DeleteSprite(0x07)));
    assert_eq!(server.mode, Mode::Command);
}

#[test]
fn render_packet_decodes_origin_sprite_glyph() {
    let mut server = I2CServer::new();
    let req = server.handle_render_packet(&[10, 20, 7, 1]);
    assert_eq!(
        req,
        Request::Render(RenderRequest { x: 10, y: 20, sprite_id: 7, glyph: 1 })
    );
    assert_eq!(server.mode, Mode::Command);
}

#[test]
fn writes_route_by_slave_address() {
    let mut server = I2CServer::new();
    // 0x2A is the command channel, 0x2B the render channel.
    assert_eq!(server.handle_write(0x2A, &[0x00, 0x09]), Some(Request::ReadRegister(0x09)));
    assert_eq!(
        server.handle_write(0x2B, &[1, 2, 3, 4]),
        Some(Request::Render(RenderRequest { x: 1, y: 2, sprite_id: 3, glyph: 4 }))
    );
    assert_eq!(server.handle_write(0x50, &[0x00, 0x09]), None);
    assert_eq!(server.mode, Mode::Command);
}

#[test]
fn response_read_hands_out_and_zeroes() {
    let mut server = I2CServer::new();
    server.set_response([1, 2, 3, 4]);
    assert_eq!(server.take_response(), [1, 2, 3, 4]);
    assert_eq!(server.take_response(), [0, 0, 0, 0]);
}

#[test]
fn framing_recovery_after_bus_error() {
    let mut server = I2CServer::new();
    server.handle_command_packet(&[0x81, 0x04]);
    assert_eq!(server.mode, Mode::Waiting(FxCommand::UploadSprite, 0x04));
    // A bus fault mid-command: the handler resets and re-arms.
    server.reset();
    assert_eq!(server.mode, Mode::Command);
    assert_eq!(server.take_response(), [0, 0, 0, 0]);
    server.handle_command_packet(&[0x81, 0x04]);
    let req = server.handle_command_packet(&[0x04, 8, 8, 2]);
    assert_eq!(req, Some(Request::CreateSprite(0x04, info(8, 8, 2))));
    assert_eq!(server.mode, Mode::Upload(0x04, info(8, 8, 2), 0));
}
