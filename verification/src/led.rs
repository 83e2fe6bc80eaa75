//! The status light: what the decoder shows of its state on its RGB LED.
use vstd::prelude::*;

verus! {

/// The RGB LED, as the three lights that are on or off.
#[derive(Debug, Clone, Copy, PartialEq, Eq, Structural)]
pub struct Led {
    led_r: bool,
    led_g: bool,
    led_b: bool,
}

impl Led {
    /// The lights that are on: red, green, blue.
    pub closed spec fn lights(&self) -> (bool, bool, bool) {
        (self.led_r, self.led_g, self.led_b)
    }

    /// An LED with all lights off.
    pub fn new() -> (led: Led)
        ensures
            led.lights() == (false, false, false),
    {
        Led { led_r: false, led_g: false, led_b: false }
    }

    /// The lights that are on: red, green, blue.
    pub fn get_lights(&self) -> (lights: (bool, bool, bool))
        ensures
            lights == self.lights(),
    {
        (self.led_r, self.led_g, self.led_b)
    }

    fn set_lights(&mut self, red: bool, green: bool, blue: bool)
        ensures
            final(self).lights() == (red, green, blue),
    {
        self.led_r = red;
        self.led_g = green;
        self.led_b = blue;
    }

    /// Red: the decoder is starting up.
    pub fn red(&mut self)
        ensures
            final(self).lights() == (true, false, false),
    {
        self.set_lights(true, false, false);
    }

    /// Green: the decoder is ready for a request.
    pub fn green(&mut self)
        ensures
            final(self).lights() == (false, true, false),
    {
        self.set_lights(false, true, false);
    }

    /// Cyan: a list request is being served.
    pub fn cyan(&mut self)
        ensures
            final(self).lights() == (false, true, true),
    {
        self.set_lights(false, true, true);
    }

    /// Magenta: a frame is being decoded.
    pub fn magenta(&mut self)
        ensures
            final(self).lights() == (true, false, true),
    {
        self.set_lights(true, false, true);
    }

    /// Yellow: a subscription is being registered.
    pub fn yellow(&mut self)
        ensures
            final(self).lights() == (true, true, false),
    {
        self.set_lights(true, true, false);
    }
}

} // verus!
