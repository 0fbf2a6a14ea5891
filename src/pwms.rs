//! PWM arithmetic: clock dividers for a frequency, and duty cycle from a
//! pulse width.

use vstd::prelude::*;

verus! {

/// Which of the two outputs of a PWM slice.
#[derive(Debug, Clone, Copy, PartialEq, Eq, Structural)]
pub enum Channel {
    A,
    B,
}

/// Slice and channel that drive a pin: pins pair up on the slices in order,
/// even pins on channel A.
pub open spec fn slice_of_pin(gpio: u8) -> (u8, Channel) {
    (((gpio / 2) % 8) as u8, if gpio % 2 == 0 { Channel::A } else { Channel::B })
}

/// Divider, in sixteenths, for `hz` with counter top `top`, rounded to the
/// nearest and kept between 1 and 255 + 15/16.
pub open spec fn divider_x16(sys_clk_hz: u32, hz: u32, top: u16, phase_correct: bool) -> int {
    let h = if phase_correct { 2 * hz } else { hz as int };
    let den = h * (top + 1);
    let raw = (sys_clk_hz * 16 + den / 2) / den;
    if raw < 16 {
        16
    } else if raw > 4095 {
        4095
    } else {
        raw
    }
}

/// The integer and fractional clock dividers for a frequency.
pub fn calculate_pwm_dividers(sys_clk_hz: u32, hz: u32, top: u16, phase_correct: bool) -> (r: (u8, u8))
    requires
        hz > 0,
        (if phase_correct { 2 * hz } else { hz as int }) * (top + 1) <= u32::MAX,
        sys_clk_hz * 16 + (if phase_correct { 2 * hz } else { hz as int }) * (top + 1) / 2 <= u32::MAX,
    ensures
        r.0 == divider_x16(sys_clk_hz, hz, top, phase_correct) / 16,
        r.1 == divider_x16(sys_clk_hz, hz, top, phase_correct) % 16,
{
    proof {
        let h = if phase_correct { 2 * hz } else { hz as int };
        assert(h <= h * (top + 1)) by (nonlinear_arith)
            requires
                h >= 0,
                top >= 0,
        ;
    }
    let hz = if phase_correct {
        hz * 2
    } else {
        hz
    };
    proof {
        assert(hz as int * (top as int + 1) >= 1) by (nonlinear_arith)
            requires
                hz >= 1,
                top >= 0,
        ;
    }
    let denominator = hz * (top as u32 + 1);
    let divider_x16 = (sys_clk_hz * 16 + denominator / 2) / denominator;
    let clamped: u32 = if divider_x16 < 16 {
        16
    } else if divider_x16 > 4095 {
        4095
    } else {
        divider_x16
    };
    proof {
        assert(clamped >> 4u32 == clamped / 16) by (bit_vector);
        assert(clamped & 0xF == clamped % 16) by (bit_vector);
    }
    let div_int = (clamped >> 4u32) as u8;
    let div_frac = (clamped & 0xF) as u8;
    (div_int, div_frac)
}

/// The duty count for a pulse of `duty_us` microseconds at `freq_hz`, when
/// the full period counts `max_duty`.
pub open spec fn duty_from_us(duty_us: u16, freq_hz: u32, max_duty: u16) -> int {
    let period_us: int = if freq_hz > 0 { 1_000_000int / freq_hz as int } else { 0 };
    if period_us == 0 || duty_us == 0 {
        0
    } else if duty_us >= period_us {
        max_duty as int
    } else {
        let scaler: int = if period_us > 0xFFFF { period_us / 0xFFFF + 1 } else { 1 };
        let num = duty_us as int / scaler;
        let den = period_us / scaler;
        num * max_duty as int / den
    }
}

/// Duty count for a pulse width, scaling the period down when it does not
/// fit in 16 bits.
pub fn calculate_duty_from_us(duty_us: u16, freq_hz: u32, max_duty: u16) -> (r: u16)
    ensures
        r == duty_from_us(duty_us, freq_hz, max_duty),
        r <= max_duty,
{
    let freq_us: u32 = if freq_hz > 0 {
        1_000_000 / freq_hz
    } else {
        0
    };
    if freq_us == 0 || duty_us == 0 {
        return 0;
    }
    if duty_us as u32 >= freq_us {
        return max_duty;
    }
    let scaler: u32 = if freq_us > 0xFFFF {
        freq_us / 0xFFFF + 1
    } else {
        1
    };
    let num = duty_us as u32 / scaler;
    let den = freq_us / scaler;
    proof {
        assert(num <= den) by (nonlinear_arith)
            requires
                num == duty_us as u32 / scaler,
                den == freq_us / scaler,
                duty_us < freq_us,
                scaler >= 1,
        ;
        assert(den >= 1) by (nonlinear_arith)
            requires
                den == freq_us / scaler,
                scaler >= 1,
                freq_us > 0xFFFF ==> scaler == freq_us / 0xFFFF + 1,
                freq_us <= 0xFFFF ==> scaler == 1,
                freq_us >= 1,
        ;
        assert(num * (max_duty as u32) <= den * (max_duty as u32)) by (nonlinear_arith)
            requires
                num <= den,
        ;
        assert(den <= 0xFFFF) by (nonlinear_arith)
            requires
                den == freq_us / scaler,
                freq_us > 0xFFFF ==> scaler == freq_us / 0xFFFF + 1,
                freq_us <= 0xFFFF ==> scaler == 1,
                freq_us <= 1_000_000,
        ;
        assert(num * (max_duty as u32) <= 0xFFFF * 0xFFFF) by (nonlinear_arith)
            requires
                num <= den,
                den <= 0xFFFF,
                max_duty <= 0xFFFF,
        ;
        assert((num * (max_duty as u32)) as int / den as int <= max_duty as int) by (nonlinear_arith)
            requires
                num <= den,
                den >= 1,
        ;
    }
    let duty = num * (max_duty as u32) / den;
    duty as u16
}

/// Number of pins that can be routed to PWM outputs.
pub const MAX_PWM_PINS: usize = 16;

/// A pin routed to a PWM output.
#[derive(Debug, Clone, Copy)]
pub struct PwmAlias {
    pub gpio_id: u8,
    pub slice_id: u8,
    pub channel: Channel,
}

/// The pins routed to PWM outputs, with the slice and channel of each.
#[derive(Debug)]
pub struct PwmAliases {
    pub aliases: Vec<PwmAlias>,
}

/// Index of the first route of pin `gpio`.
pub open spec fn index_of_route(aliases: Seq<PwmAlias>, gpio: u8) -> Option<int> {
    if exists|i: int| 0 <= i < aliases.len() && aliases[i].gpio_id == gpio {
        Some(
            choose|i: int|
                0 <= i < aliases.len() && aliases[i].gpio_id == gpio && forall|j: int|
                    0 <= j < i ==> #[trigger] aliases[j].gpio_id != gpio,
        )
    } else {
        None
    }
}

impl PwmAliases {
    pub fn new() -> (r: PwmAliases)
        ensures
            r.aliases@.len() == 0,
    {
        PwmAliases { aliases: Vec::new() }
    }

    /// Routes pin `gpio_id` to the slice and channel that drive it; once
    /// every route is used, further pins are dropped.
    pub fn register(&mut self, gpio_id: u8)
        ensures
            old(self).aliases@.len() < MAX_PWM_PINS ==> final(self).aliases@ == old(
                self,
            ).aliases@.push(
                PwmAlias {
                    gpio_id,
                    slice_id: slice_of_pin(gpio_id).0,
                    channel: slice_of_pin(gpio_id).1,
                },
            ),
            old(self).aliases@.len() >= MAX_PWM_PINS ==> final(self).aliases@ == old(self).aliases@,
    {
        let slice_id = (gpio_id >> 1u8) & 0x7;
        let channel = if gpio_id & 1 == 0 {
            Channel::A
        } else {
            Channel::B
        };
        proof {
            assert((gpio_id >> 1u8) & 0x7 == (gpio_id / 2) % 8) by (bit_vector);
            assert((gpio_id & 1 == 0) == (gpio_id % 2 == 0)) by (bit_vector);
        }
        if self.aliases.len() < MAX_PWM_PINS {
            self.aliases.push(PwmAlias { gpio_id, slice_id, channel });
        }
    }

    /// The slice and channel that drive pin `gpio`.
    pub fn get_pwm_slice_id_by_gpio(&self, gpio: u8) -> (r: Result<(u8, Channel), crate::config::ConfigError>)
        ensures
            match index_of_route(self.aliases@, gpio) {
                Some(i) => r == Ok::<(u8, Channel), crate::config::ConfigError>(
                    (self.aliases@[i].slice_id, self.aliases@[i].channel),
                ),
                None => r == Err::<(u8, Channel), crate::config::ConfigError>(
                    crate::config::ConfigError::GpioNotFound,
                ),
            },
    {
        let mut i: usize = 0;
        while i < self.aliases.len()
            invariant
                i <= self.aliases@.len(),
                forall|k: int| 0 <= k < i ==> #[trigger] self.aliases@[k].gpio_id != gpio,
            decreases self.aliases.len() - i,
        {
            if self.aliases[i].gpio_id == gpio {
                proof {
                    let c = choose|c: int|
                        0 <= c < self.aliases@.len() && self.aliases@[c].gpio_id == gpio && forall|j: int|
                            0 <= j < c ==> #[trigger] self.aliases@[j].gpio_id != gpio;
                    assert(0 <= c < self.aliases@.len() && self.aliases@[c].gpio_id == gpio);
                    if c < i {
                        assert(self.aliases@[c].gpio_id != gpio);
                    }
                    if c > i {
                        assert(self.aliases@[i as int].gpio_id != gpio);
                    }
                }
                return Ok((self.aliases[i].slice_id, self.aliases[i].channel));
            }
            i += 1;
        }
        Err(crate::config::ConfigError::GpioNotFound)
    }
}

} // verus!
