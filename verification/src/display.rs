//! Display controller model: power, backlight duty and the frame window.
//!
//! The verified model keeps the last written configuration and the last
//! drawing order; the hardware layer turns the recorded duty into a PWM
//! setting and the drawing order into LCD window writes.

use vstd::prelude::*;

verus! {

/// The rectangular window of one draw call: origin and size in pixels.
#[derive(Clone, Copy, Debug, PartialEq, Eq, Structural)]
pub struct Bounds {
    pub x: u8,
    pub y: u8,
    pub width: u8,
    pub height: u8,
}

/// One drawing order: a window and the bitmap bytes that fill it.
#[derive(Debug, PartialEq, Eq)]
pub struct DrawCall {
    pub bounds: Bounds,
    pub bitmap: Vec<u8>,
}

/// The PWM duty a backlight index maps to: the index, clamped to 15,
/// scaled linearly against the PWM period.
pub open spec fn backlight_duty(level: u8, max_duty: int) -> int {
    (if level <= 15 {
        level as int
    } else {
        15
    }) * max_duty / 16
}

/// The display controller: configuration bytes, power state, backlight
/// duty and the most recent drawing order.
pub struct DisplayController {
    config: [u8; 4],
    powered: bool,
    duty: u16,
    max_duty: u16,
    last_draw: Option<DrawCall>,
}

impl DisplayController {
    /// The last written configuration.
    pub closed spec fn spec_config(&self) -> Seq<u8> {
        self.config@
    }

    /// Whether the panel is switched on.
    pub closed spec fn spec_powered(&self) -> bool {
        self.powered
    }

    /// The current backlight duty.
    pub closed spec fn spec_duty(&self) -> int {
        self.duty as int
    }

    /// The PWM period the duty is scaled against.
    pub closed spec fn spec_max_duty(&self) -> int {
        self.max_duty as int
    }

    /// The most recent drawing order, if any.
    pub closed spec fn spec_last_draw(&self) -> Option<DrawCall> {
        self.last_draw
    }

    /// A controller fresh out of reset: panel off, backlight dark.
    pub fn new(max_duty: u16) -> (r: DisplayController)
        ensures
            r.spec_config() == seq![0u8, 0u8, 0u8, 0u8],
            !r.spec_powered(),
            r.spec_duty() == 0,
            r.spec_max_duty() == max_duty,
            r.spec_last_draw() is None,
    {
        let r = DisplayController {
            config: [0, 0, 0, 0],
            powered: false,
            duty: 0,
            max_duty,
            last_draw: None,
        };
        proof {
            assert(r.config@ =~= seq![0u8, 0u8, 0u8, 0u8]);
        }
        r
    }

    /// Set the backlight to `level`, clamped to the 16-step scale and
    /// mapped linearly onto the PWM period.
    pub fn set_backlight(&mut self, level: u8)
        ensures
            final(self).spec_duty() == backlight_duty(level, old(self).spec_max_duty()),
            final(self).spec_config() == old(self).spec_config(),
            final(self).spec_powered() == old(self).spec_powered(),
            final(self).spec_max_duty() == old(self).spec_max_duty(),
            final(self).spec_last_draw() == old(self).spec_last_draw(),
    {
        let lv: u32 = if level > 15 {
            15
        } else {
            level as u32
        };
        proof {
            assert(lv * (self.max_duty as u32) <= 15 * 65535) by (nonlinear_arith)
                requires
                    lv <= 15,
                    self.max_duty <= 65535,
            ;
        }
        let duty = lv * (self.max_duty as u32) / 16;
        self.duty = duty as u16;
    }

    /// Switch the panel on.
    pub fn on(&mut self)
        ensures
            final(self).spec_powered(),
            final(self).spec_config() == old(self).spec_config(),
            final(self).spec_duty() == old(self).spec_duty(),
            final(self).spec_max_duty() == old(self).spec_max_duty(),
            final(self).spec_last_draw() == old(self).spec_last_draw(),
    {
        self.powered = true;
    }

    /// Switch the panel off.
    pub fn off(&mut self)
        ensures
            !final(self).spec_powered(),
            final(self).spec_config() == old(self).spec_config(),
            final(self).spec_duty() == old(self).spec_duty(),
            final(self).spec_max_duty() == old(self).spec_max_duty(),
            final(self).spec_last_draw() == old(self).spec_last_draw(),
    {
        self.powered = false;
    }

    /// Apply a configuration word: bit 0 of byte 0 switches the panel,
    /// byte 1 is the backlight index; the word is kept for read-back.
    pub fn set_config(&mut self, cfg: [u8; 4])
        ensures
            final(self).spec_config() == cfg@,
            final(self).spec_powered() == (cfg@[0] & 1 == 1),
            final(self).spec_duty() == backlight_duty(cfg@[1], old(self).spec_max_duty()),
            final(self).spec_max_duty() == old(self).spec_max_duty(),
            final(self).spec_last_draw() == old(self).spec_last_draw(),
    {
        self.config = cfg;
        if cfg[0] & 1 == 1 {
            self.powered = true;
        } else {
            self.powered = false;
        }
        self.set_backlight(cfg[1]);
    }

    /// The last written configuration word.
    pub fn config(&self) -> (r: [u8; 4])
        ensures
            r@ == self.spec_config(),
    {
        self.config
    }

    /// Record a drawing order for the hardware layer.  The bitmap must
    /// fill the window exactly: one bit per pixel.
    pub fn draw(&mut self, dc: DrawCall)
        requires
            dc.bitmap@.len() == (dc.bounds.width * dc.bounds.height) / 8,
        ensures
            final(self).spec_last_draw() == Some(dc),
            final(self).spec_config() == old(self).spec_config(),
            final(self).spec_powered() == old(self).spec_powered(),
            final(self).spec_duty() == old(self).spec_duty(),
            final(self).spec_max_duty() == old(self).spec_max_duty(),
    {
        self.last_draw = Some(dc);
    }

    /// The most recent drawing order, for the hardware layer to flush.
    pub fn last_draw(&self) -> (r: &Option<DrawCall>)
        ensures
            r == self.spec_last_draw(),
    {
        &self.last_draw
    }

    /// Whether the panel is switched on.
    pub fn is_on(&self) -> (r: bool)
        ensures
            r == self.spec_powered(),
    {
        self.powered
    }

    /// The current backlight duty.
    pub fn duty(&self) -> (r: u16)
        ensures
            r == self.spec_duty(),
    {
        self.duty
    }
}

} // verus!
