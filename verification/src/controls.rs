//! Control inputs: GPIO edge counters and the quadrature encoder.

use vstd::prelude::*;

verus! {

/// The kind of a detected signal edge.
#[derive(Clone, Copy, Debug, PartialEq, Eq, Structural)]
pub enum Edge {
    Rising,
    Falling,
}

/// One more edge, saturating at the 4-bit ceiling.
pub open spec fn sat_inc(c: u8) -> u8 {
    if c < 15 {
        (c + 1) as u8
    } else {
        c
    }
}

/// Saturating 4-bit edge counters for a group of four GPIO lines,
/// counting rising and falling edges separately within the current
/// host-read window.
pub struct Gpio {
    rising: [u8; 4],
    falling: [u8; 4],
}

impl Gpio {
    /// Rising-edge counts, one per line.
    pub closed spec fn spec_rising(&self) -> Seq<u8> {
        self.rising@
    }

    /// Falling-edge counts, one per line.
    pub closed spec fn spec_falling(&self) -> Seq<u8> {
        self.falling@
    }

    /// Every counter fits in its nibble.
    pub closed spec fn wf(&self) -> bool {
        forall|i: int| 0 <= i < 4 ==> self.rising@[i] <= 15 && self.falling@[i] <= 15
    }

    /// All counters at zero.
    pub fn new() -> (r: Gpio)
        ensures
            r.wf(),
            r.spec_rising() == seq![0u8, 0u8, 0u8, 0u8],
            r.spec_falling() == seq![0u8, 0u8, 0u8, 0u8],
    {
        let r = Gpio { rising: [0, 0, 0, 0], falling: [0, 0, 0, 0] };
        proof {
            assert(r.rising@ =~= seq![0u8, 0u8, 0u8, 0u8]);
            assert(r.falling@ =~= seq![0u8, 0u8, 0u8, 0u8]);
        }
        r
    }

    /// Count one hardware edge on line `idx`, saturating at 15.
    pub fn record_edge(&mut self, idx: usize, edge: Edge)
        requires
            old(self).wf(),
            idx < 4,
        ensures
            final(self).wf(),
            edge == Edge::Rising ==> final(self).spec_rising() == old(self).spec_rising().update(
                idx as int,
                sat_inc(old(self).spec_rising()[idx as int]),
            ) && final(self).spec_falling() == old(self).spec_falling(),
            edge == Edge::Falling ==> final(self).spec_falling() == old(
                self,
            ).spec_falling().update(idx as int, sat_inc(old(self).spec_falling()[idx as int]))
                && final(self).spec_rising() == old(self).spec_rising(),
    {
        match edge {
            Edge::Rising => {
                let c = self.rising[idx];
                if c < 15 {
                    self.rising[idx] = c + 1;
                } else {
                    proof {
                        assert(self.rising@ =~= old(self).spec_rising().update(
                            idx as int,
                            sat_inc(old(self).spec_rising()[idx as int]),
                        ));
                    }
                }
            }
            Edge::Falling => {
                let c = self.falling[idx];
                if c < 15 {
                    self.falling[idx] = c + 1;
                } else {
                    proof {
                        assert(self.falling@ =~= old(self).spec_falling().update(
                            idx as int,
                            sat_inc(old(self).spec_falling()[idx as int]),
                        ));
                    }
                }
            }
        }
    }

    /// One byte per line, falling count in the low nibble and rising
    /// count in the high nibble; reading clears every counter.
    pub fn as_bytes(&mut self) -> (r: [u8; 4])
        requires
            old(self).wf(),
        ensures
            final(self).wf(),
            forall|i: int|
                0 <= i < 4 ==> r@[i] == (old(self).spec_falling()[i] | old(self).spec_rising()[i]
                    << 4),
            final(self).spec_rising() == seq![0u8, 0u8, 0u8, 0u8],
            final(self).spec_falling() == seq![0u8, 0u8, 0u8, 0u8],
    {
        let r: [u8; 4] = [
            self.falling[0] | self.rising[0] << 4,
            self.falling[1] | self.rising[1] << 4,
            self.falling[2] | self.rising[2] << 4,
            self.falling[3] | self.rising[3] << 4,
        ];
        self.rising = [0, 0, 0, 0];
        self.falling = [0, 0, 0, 0];
        proof {
            assert(self.rising@ =~= seq![0u8, 0u8, 0u8, 0u8]);
            assert(self.falling@ =~= seq![0u8, 0u8, 0u8, 0u8]);
        }
        r
    }
}

/// Snapshot of the quadrature encoder: the hardware pulse counter and
/// the counting direction, as last read from the timer.
pub struct Encoder {
    pub count: u16,
    pub downcounting: bool,
}

impl Encoder {
    /// An encoder at rest.
    pub fn new() -> (r: Encoder)
        ensures
            r.count == 0,
            !r.downcounting,
    {
        Encoder { count: 0, downcounting: false }
    }

    /// Record the hardware counter and direction as read from the timer.
    pub fn set_state(&mut self, count: u16, downcounting: bool)
        ensures
            final(self).count == count,
            final(self).downcounting == downcounting,
    {
        self.count = count;
        self.downcounting = downcounting;
    }

    /// The wire form of the snapshot: pulse count halved, big-endian,
    /// then a direction flag (1 = down-counting), then a reserved zero
    /// byte.  Reading is non-destructive.
    pub fn as_bytes(&self) -> (r: [u8; 4])
        ensures
            r@[0] == self.count / 2 / 256,
            r@[1] == (self.count / 2) % 256,
            r@[2] == (if self.downcounting {
                1u8
            } else {
                0u8
            }),
            r@[3] == 0u8,
    {
        let pulses = self.count / 2;
        proof {
            assert(pulses >> 8 == pulses / 256) by (bit_vector);
            assert(pulses & 0xff == pulses % 256) by (bit_vector);
            assert(pulses / 256 <= 255 && pulses % 256 <= 255);
        }
        let hi = (pulses >> 8) as u8;
        let lo = (pulses & 0xff) as u8;
        let dir = if self.downcounting {
            1
        } else {
            0
        };
        [hi, lo, dir, 0]
    }
}

} // verus!
