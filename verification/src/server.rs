//! Byte-level protocol engine of the I2C command channel.
//!
//! The host talks to two adjacent slave addresses: the command channel
//! decodes two-byte commands, four-byte argument packets and bitmap
//! upload chunks, while the render channel carries fire-and-forget
//! four-byte render requests.  The transport events (address match,
//! received packet, bus error) are delivered by the interrupt handler;
//! every decoding decision lives here and is specified by [`spec_step`].

use vstd::prelude::*;
use vstd::slice::slice_to_vec;

use crate::config::{FX_ADDRESS, RENDER_ADDRESS};
use crate::store::{Size, SpriteInfo};

verus! {

/// First byte of a command packet: read a register slot.
pub const OP_READ_REGISTER: u8 = 0x00;

/// First byte of a command packet: write a register slot.
pub const OP_WRITE_REGISTER: u8 = 0x80;

/// First byte of a command packet: upload a sprite.
pub const OP_UPLOAD_SPRITE: u8 = 0x81;

/// First byte of a command packet: delete a sprite.
pub const OP_DELETE_SPRITE: u8 = 0x82;

/// The letters `d`, `e`, `l`: the interlock a delete packet must carry.
pub const DEL_MAGIC_0: u8 = 100;

/// Second interlock byte of a delete packet.
pub const DEL_MAGIC_1: u8 = 101;

/// Third interlock byte of a delete packet.
pub const DEL_MAGIC_2: u8 = 108;

/// A command that waits for its four-byte argument packet.
#[derive(Clone, Copy, Debug, PartialEq, Eq, Structural)]
pub enum FxCommand {
    WriteRegister,
    UploadSprite,
    DeleteSprite,
}

/// Protocol state of the command channel.
#[derive(Clone, Copy, Debug, PartialEq, Eq, Structural)]
pub enum Mode {
    Command,
    Waiting(FxCommand, u8),
    Upload(u8, SpriteInfo, usize),
}

/// A render request as carried on the wire: origin, sprite, glyph.
#[derive(Clone, Copy, Debug, PartialEq, Eq, Structural)]
pub struct RenderRequest {
    pub x: u8,
    pub y: u8,
    pub sprite_id: u8,
    pub glyph: u8,
}

/// What the server hands the dispatcher to act on.
#[derive(Clone, Copy, Debug, PartialEq, Eq)]
pub enum Request {
    Render(RenderRequest),
    ReadRegister(u8),
    WriteRegister(u8, [u8; 4]),
    CreateSprite(u8, SpriteInfo),
    PatchSprite(u8, usize),
    DeleteSprite(u8),
}

impl Mode {
    /// In upload mode, never more bytes sent than the blob holds.
    pub open spec fn wf(self) -> bool {
        match self {
            Mode::Upload(_, info, sent) => sent <= info.spec_bitmap_len(),
            _ => true,
        }
    }

    /// How many bytes the next packet in this state carries.
    pub open spec fn spec_packet_len(self) -> int {
        match self {
            Mode::Command => 2,
            Mode::Waiting(_, _) => 4,
            Mode::Upload(_, info, sent) => if info.spec_bitmap_len() - sent < 255 {
                info.spec_bitmap_len() - sent
            } else {
                255
            },
        }
    }

    /// How many bytes the next packet in this state carries.
    pub fn packet_len(&self) -> (r: usize)
        requires
            self.wf(),
        ensures
            r == self.spec_packet_len(),
    {
        match self {
            Mode::Command => 2,
            Mode::Waiting(_, _) => 4,
            Mode::Upload(_, info, sent) => {
                let rem = info.bitmap_len() - *sent;
                if rem < 255 {
                    rem
                } else {
                    255
                }
            }
        }
    }
}

/// What one received command packet does: the successor state and the
/// request it emits, if any.
pub open spec fn spec_step(m: Mode, p: Seq<u8>) -> (Mode, Option<Request>) {
    match m {
        Mode::Command => {
            if p[0] == OP_READ_REGISTER {
                (Mode::Command, Some(Request::ReadRegister(p[1])))
            } else if p[0] == OP_WRITE_REGISTER {
                (Mode::Waiting(FxCommand::WriteRegister, p[1]), None)
            } else if p[0] == OP_UPLOAD_SPRITE {
                (Mode::Waiting(FxCommand::UploadSprite, p[1]), None)
            } else if p[0] == OP_DELETE_SPRITE {
                (Mode::Waiting(FxCommand::DeleteSprite, p[1]), None)
            } else {
                (Mode::Command, None)
            }
        }
        Mode::Waiting(FxCommand::WriteRegister, reg) => {
            (Mode::Command, Some(Request::WriteRegister(reg, [p[0], p[1], p[2], p[3]])))
        }
        Mode::Waiting(FxCommand::UploadSprite, id) => {
            if p[0] != id {
                (Mode::Command, None)
            } else {
                let info = SpriteInfo {
                    glyphs: p[3],
                    glyph_size: Size { width: p[1], height: p[2] },
                };
                (Mode::Upload(id, info, 0), Some(Request::CreateSprite(id, info)))
            }
        }
        Mode::Waiting(FxCommand::DeleteSprite, id) => {
            if p[0] == id && p[1] == DEL_MAGIC_0 && p[2] == DEL_MAGIC_1 && p[3] == DEL_MAGIC_2 {
                (Mode::Command, Some(Request::DeleteSprite(id)))
            } else {
                (Mode::Command, None)
            }
        }
        Mode::Upload(id, info, sent) => {
            let next = if info.spec_bitmap_len() > sent + p.len() {
                Mode::Upload(id, info, (sent + p.len()) as usize)
            } else {
                Mode::Command
            };
            (next, Some(Request::PatchSprite(id, sent)))
        }
    }
}

/// Four zero bytes: the response buffer at rest.
pub open spec fn zero4() -> Seq<u8> {
    seq![0u8, 0u8, 0u8, 0u8]
}

/// The I2C slave server: protocol state, the pre-fetched four-byte
/// response and the bytes of the last received packet.
pub struct I2CServer {
    pub mode: Mode,
    pub response: [u8; 4],
    pub payload: Vec<u8>,
}

impl I2CServer {
    /// Well-formed protocol state.
    pub open spec fn wf(self) -> bool {
        self.mode.wf()
    }

    /// A server at rest in command mode.
    pub fn new() -> (r: I2CServer)
        ensures
            r.wf(),
            r.mode == Mode::Command,
            r.response@ == zero4(),
            r.payload@ == seq![0u8, 0u8],
    {
        let mut payload: Vec<u8> = Vec::new();
        payload.push(0);
        payload.push(0);
        proof {
            assert(payload@ =~= seq![0u8, 0u8]);
            assert(([0u8, 0u8, 0u8, 0u8])@ =~= zero4());
        }
        I2CServer { mode: Mode::Command, response: [0, 0, 0, 0], payload }
    }

    /// Drop back to command mode and clear the buffers; the recovery
    /// path after any bus fault.
    pub fn reset(&mut self)
        ensures
            final(self).wf(),
            final(self).mode == Mode::Command,
            final(self).response@ == zero4(),
            final(self).payload@ == seq![0u8, 0u8],
    {
        self.mode = Mode::Command;
        self.response = [0, 0, 0, 0];
        let mut payload: Vec<u8> = Vec::new();
        payload.push(0);
        payload.push(0);
        self.payload = payload;
        proof {
            assert(self.payload@ =~= seq![0u8, 0u8]);
            assert(self.response@ =~= zero4());
        }
    }

    /// The bytes of the last received packet.
    pub fn get_payload(&self) -> (r: &[u8])
        ensures
            r@ == self.payload@,
    {
        self.payload.as_slice()
    }

    /// Pre-place the four bytes the master will read back.
    pub fn set_response(&mut self, res: [u8; 4])
        ensures
            final(self).wf() == old(self).wf(),
            final(self).mode == old(self).mode,
            final(self).payload@ == old(self).payload@,
            final(self).response == res,
    {
        self.response = res;
    }

    /// The master reads the response: hand the buffer out and zero it.
    pub fn take_response(&mut self) -> (r: [u8; 4])
        ensures
            final(self).wf() == old(self).wf(),
            final(self).mode == old(self).mode,
            final(self).payload@ == old(self).payload@,
            r == old(self).response,
            final(self).response@ == zero4(),
    {
        let r = self.response;
        self.response = [0, 0, 0, 0];
        proof {
            assert(self.response@ =~= zero4());
        }
        r
    }

    /// Decode one packet received on the command channel, as
    /// [`spec_step`] describes: advance the state machine and emit the
    /// decoded request, if the packet completes one.
    pub fn handle_command_packet(&mut self, packet: &[u8]) -> (r: Option<Request>)
        requires
            old(self).wf(),
            packet@.len() == old(self).mode.spec_packet_len(),
        ensures
            final(self).wf(),
            final(self).response == old(self).response,
            final(self).payload@ == packet@,
            (final(self).mode, r) == spec_step(old(self).mode, packet@),
    {
        self.payload = slice_to_vec(packet);
        let mode = self.mode;
        match mode {
            Mode::Command => {
                let op = packet[0];
                let arg = packet[1];
                if op == OP_READ_REGISTER {
                    Some(Request::ReadRegister(arg))
                } else if op == OP_WRITE_REGISTER {
                    self.mode = Mode::Waiting(FxCommand::WriteRegister, arg);
                    None
                } else if op == OP_UPLOAD_SPRITE {
                    self.mode = Mode::Waiting(FxCommand::UploadSprite, arg);
                    None
                } else if op == OP_DELETE_SPRITE {
                    self.mode = Mode::Waiting(FxCommand::DeleteSprite, arg);
                    None
                } else {
                    None
                }
            }
            Mode::Waiting(FxCommand::WriteRegister, reg) => {
                self.mode = Mode::Command;
                Some(Request::WriteRegister(reg, [packet[0], packet[1], packet[2], packet[3]]))
            }
            Mode::Waiting(FxCommand::UploadSprite, id) => {
                if packet[0] != id {
                    self.mode = Mode::Command;
                    None
                } else {
                    let info = SpriteInfo {
                        glyphs: packet[3],
                        glyph_size: Size { width: packet[1], height: packet[2] },
                    };
                    proof {
                        info.lemma_len_bounds();
                    }
                    self.mode = Mode::Upload(id, info, 0);
                    Some(Request::CreateSprite(id, info))
                }
            }
            Mode::Waiting(FxCommand::DeleteSprite, id) => {
                self.mode = Mode::Command;
                if packet[0] == id && packet[1] == DEL_MAGIC_0 && packet[2] == DEL_MAGIC_1
                    && packet[3] == DEL_MAGIC_2 {
                    Some(Request::DeleteSprite(id))
                } else {
                    None
                }
            }
            Mode::Upload(id, info, sent) => {
                proof {
                    info.lemma_len_bounds();
                }
                let n = packet.len();
                self.mode = if info.bitmap_len() > sent + n {
                    Mode::Upload(id, info, sent + n)
                } else {
                    Mode::Command
                };
                Some(Request::PatchSprite(id, sent))
            }
        }
    }

    /// Decode one master-write transfer, matched by slave address: the
    /// command channel runs the state machine, the render channel
    /// decodes a render request, any other address is not ours and is
    /// ignored.
    pub fn handle_write(&mut self, addr: u16, packet: &[u8]) -> (r: Option<Request>)
        requires
            old(self).wf(),
            addr == FX_ADDRESS ==> packet@.len() == old(self).mode.spec_packet_len(),
            addr == RENDER_ADDRESS ==> packet@.len() == 4,
        ensures
            final(self).wf(),
            final(self).response == old(self).response,
            addr == FX_ADDRESS ==> (final(self).mode, r) == spec_step(old(self).mode, packet@)
                && final(self).payload@ == packet@,
            addr == RENDER_ADDRESS ==> final(self).mode == old(self).mode && r == Some(
                Request::Render(
                    RenderRequest {
                        x: packet@[0],
                        y: packet@[1],
                        sprite_id: packet@[2],
                        glyph: packet@[3],
                    },
                ),
            ) && final(self).payload@ == packet@,
            addr != FX_ADDRESS && addr != RENDER_ADDRESS ==> r is None && *final(self) == *old(
                self,
            ),
    {
        if addr == FX_ADDRESS {
            self.handle_command_packet(packet)
        } else if addr == RENDER_ADDRESS {
            Some(self.handle_render_packet(packet))
        } else {
            None
        }
    }

    /// Decode one packet received on the render channel: always four
    /// bytes carrying origin, sprite and glyph.
    pub fn handle_render_packet(&mut self, packet: &[u8]) -> (r: Request)
        requires
            packet@.len() == 4,
        ensures
            final(self).wf() == old(self).wf(),
            final(self).mode == old(self).mode,
            final(self).response == old(self).response,
            final(self).payload@ == packet@,
            r == Request::Render(
                RenderRequest {
                    x: packet@[0],
                    y: packet@[1],
                    sprite_id: packet@[2],
                    glyph: packet@[3],
                },
            ),
    {
        self.payload = slice_to_vec(packet);
        Request::Render(
            RenderRequest { x: packet[0], y: packet[1], sprite_id: packet[2], glyph: packet[3] },
        )
    }
}

/// The machine run over a whole sequence of packets: the final state
/// and every request emitted along the way, in order.
pub open spec fn run_steps(m: Mode, packets: Seq<Seq<u8>>) -> (Mode, Seq<Request>)
    decreases packets.len(),
{
    if packets.len() == 0 {
        (m, Seq::empty())
    } else {
        let first = spec_step(m, packets[0]);
        let rest = run_steps(first.0, packets.drop_first());
        (
            rest.0,
            match first.1 {
                Some(q) => seq![q] + rest.1,
                None => rest.1,
            },
        )
    }
}

/// The chunk the protocol expects at upload position `sent` of a blob of
/// `len` bytes.
pub open spec fn chunk_at(len: int, sent: int) -> int {
    if len - sent < 255 {
        len - sent
    } else {
        255
    }
}

/// Law: an upload of a blob of `bitmap_len` bytes, fed the full-sized
/// chunks the protocol asks for, emits exactly `ceil(bitmap_len / 255)`
/// patch requests, at the strictly increasing offsets `sent`, `sent +
/// 255`, `sent + 510`, …, and then returns the machine to command mode;
/// the last chunk ends exactly at `bitmap_len`.
pub proof fn lemma_upload_completeness(id: u8, info: SpriteInfo, packets: Seq<Seq<u8>>, sent: int)
    requires
        0 <= sent < info.spec_bitmap_len(),
        packets.len() == (info.spec_bitmap_len() - sent + 254) / 255,
        forall|j: int|
            0 <= j < packets.len() ==> (#[trigger] packets[j]).len() == chunk_at(
                info.spec_bitmap_len(),
                sent + 255 * j,
            ),
    ensures
        run_steps(Mode::Upload(id, info, sent as usize), packets).0 == Mode::Command,
        run_steps(Mode::Upload(id, info, sent as usize), packets).1 == Seq::new(
            packets.len(),
            |j: int| Request::PatchSprite(id, (sent + 255 * j) as usize),
        ),
    decreases info.spec_bitmap_len() - sent,
{
    info.lemma_len_bounds();
    let l = info.spec_bitmap_len();
    let n = chunk_at(l, sent);
    assert(packets[0].len() == n);
    let first = spec_step(Mode::Upload(id, info, sent as usize), packets[0]);
    assert(first.1 == Some(Request::PatchSprite(id, sent as usize)));
    if sent + n >= l {
        assert(n == l - sent);
        assert(packets.len() == 1);
        assert(first.0 == Mode::Command);
        assert(packets.drop_first().len() == 0);
        let run = run_steps(Mode::Upload(id, info, sent as usize), packets);
        let tail_run = run_steps(first.0, packets.drop_first());
        assert(tail_run == (first.0, Seq::<Request>::empty()));
        assert(run.0 == tail_run.0);
        assert(run.1 == seq![Request::PatchSprite(id, sent as usize)] + tail_run.1);
        assert(run.1 =~= Seq::new(
            packets.len(),
            |j: int| Request::PatchSprite(id, (sent + 255 * j) as usize),
        ));
    } else {
        assert(n == 255);
        assert(first.0 == Mode::Upload(id, info, (sent + 255) as usize));
        let tail = packets.drop_first();
        assert(tail.len() == (l - (sent + 255) + 254) / 255);
        assert forall|j: int|
            0 <= j < tail.len() implies (#[trigger] tail[j]).len() == chunk_at(
            l,
            sent + 255 + 255 * j,
        ) by {
            assert(tail[j] == packets[j + 1]);
            assert(packets[j + 1].len() == chunk_at(l, sent + 255 * (j + 1)));
            assert(sent + 255 * (j + 1) == sent + 255 + 255 * j) by (nonlinear_arith);
        }
        lemma_upload_completeness(id, info, tail, sent + 255);
        let run = run_steps(Mode::Upload(id, info, sent as usize), packets);
        let tail_run = run_steps(first.0, tail);
        assert(run.0 == tail_run.0);
        assert(run.1 =~= Seq::new(
            packets.len(),
            |j: int| Request::PatchSprite(id, (sent + 255 * j) as usize),
        )) by {
            assert(run.1 == seq![Request::PatchSprite(id, sent as usize)] + tail_run.1);
            assert forall|j: int| 0 <= j < packets.len() implies run.1[j]
                == Request::PatchSprite(id, (sent + 255 * j) as usize) by {
                if j > 0 {
                    assert(run.1[j] == tail_run.1[j - 1]);
                    assert(tail_run.1[j - 1] == Request::PatchSprite(
                        id,
                        (sent + 255 + 255 * (j - 1)) as usize,
                    ));
                    assert(sent + 255 + 255 * (j - 1) == sent + 255 * j) by (nonlinear_arith);
                }
            }
        }
    }
}

/// Law: a command byte that is none of the four opcodes leaves the
/// machine in command mode and emits no request.
pub proof fn lemma_unknown_opcode(p: Seq<u8>)
    requires
        p.len() == 2,
        p[0] != OP_READ_REGISTER,
        p[0] != OP_WRITE_REGISTER,
        p[0] != OP_UPLOAD_SPRITE,
        p[0] != OP_DELETE_SPRITE,
    ensures
        spec_step(Mode::Command, p) == (Mode::Command, Option::<Request>::None),
{
}

} // verus!
