//! The programmable interval timer: its command byte and reload value, and
//! the port writes that program it.
use vstd::prelude::*;

pub mod pit_config;

use crate::timer::pit::pit_config::{
    config_byte, PITAccessMode, PITChannel, PITConfig, PITEncoding, PITOperatingMode,
};

verus! {

/// Channel 0 data port.
pub const PIT_CHANNEL0_PORT: u16 = 0x40;

/// The port the command byte is written to by [`PIT::start`].
pub const PIT_START_COMMAND_PORT: u16 = 0x42;

/// Mode/command register.
pub const PIT_COMMAND_PORT: u16 = 0x43;

/// Reload value that makes channel 0 fire every millisecond: the PIT's
/// 1193181.67 Hz input clock divided by 1000, rounded down.
pub const PIT_MS_DIVISOR: u32 = 1193;

/// The timer: its command byte and its reload value.
pub struct PIT {
    config: PITConfig,
    reload: u16,
}

impl View for PIT {
    type V = (u8, u16);

    /// `(command byte, reload value)`.
    closed spec fn view(&self) -> (u8, u16) {
        (self.config@, self.reload)
    }
}

impl PIT {
    /// Channel 2, low byte then high byte, rate generator, binary; reload 0.
    pub fn new() -> (p: Self)
        ensures
            p@ == (
                config_byte(
                    PITEncoding::Binary,
                    PITOperatingMode::RateGenerator,
                    PITAccessMode::AccessLowByteThenHighByte,
                    PITChannel::Channel2,
                ),
                0u16,
            ),
            p@.0 == 0xB4,
    {
        PIT {
            config: PITConfig::build_from(
                PITEncoding::Binary,
                PITOperatingMode::RateGenerator,
                PITAccessMode::AccessLowByteThenHighByte,
                PITChannel::Channel2,
            ),
            reload: 0,
        }
    }

    /// Sets the reload value.
    pub fn set_reload(&mut self, reload: u16)
        ensures
            final(self)@ == (old(self)@.0, reload),
    {
        self.reload = reload;
    }

    pub fn set_encoding(&mut self, encoding: PITEncoding)
        ensures
            final(self)@ == (
                match encoding {
                    PITEncoding::Binary => old(self)@.0 & 0b1111_1110,
                    PITEncoding::BCD => old(self)@.0 | 0b1,
                },
                old(self)@.1,
            ),
    {
        self.config.set_encoding(encoding);
    }

    pub fn set_mode(&mut self, mode: PITOperatingMode)
        ensures
            final(self)@ == (old(self)@.0 | (pit_config::mode_code(mode) << 1u8), old(self)@.1),
    {
        self.config.set_mode(mode);
    }

    pub fn set_access_mode(&mut self, access_mode: PITAccessMode)
        ensures
            final(self)@ == (old(self)@.0 | (pit_config::access_code(access_mode) << 4u8), old(
                self,
            )@.1),
    {
        self.config.set_access_mode(access_mode);
    }

    pub fn set_channel(&mut self, channel: PITChannel)
        ensures
            final(self)@ == (old(self)@.0 | (pit_config::channel_code(channel) << 6u8), old(
                self,
            )@.1),
    {
        self.config.set_channel(channel);
    }

    /// The port writes that start the timer, in order: the command byte,
    /// then the low and the high byte of the reload value.
    pub fn start(&self) -> (ws: Vec<(u16, u8)>)
        ensures
            ws@ == seq![
                (PIT_START_COMMAND_PORT, self@.0),
                (PIT_CHANNEL0_PORT, (self@.1 % 0x100) as u8),
                (PIT_CHANNEL0_PORT, (self@.1 / 0x100) as u8),
            ],
    {
        let mut ws: Vec<(u16, u8)> = Vec::new();
        let lo = (self.reload & 0xFF) as u8;
        let hi = (self.reload >> 8u16) as u8;
        let r = self.reload;
        assert(lo == r % 0x100 && hi == r / 0x100) by (bit_vector)
            requires
                lo == (r & 0xFF) as u8,
                hi == (r >> 8u16) as u8,
        ;
        ws.push((PIT_START_COMMAND_PORT, self.config.get_config()));
        ws.push((PIT_CHANNEL0_PORT, lo));
        ws.push((PIT_CHANNEL0_PORT, hi));
        ws
    }

    /// The port writes that make channel 0 a 1 ms rate generator, as done
    /// before a sleep: the command byte `0b0011_0100`, then the divisor's
    /// low and high bytes.
    pub fn sleep_setup() -> (ws: Vec<(u16, u8)>)
        ensures
            ws@ == seq![
                (PIT_COMMAND_PORT, 0b0011_0100u8),
                (PIT_CHANNEL0_PORT, (PIT_MS_DIVISOR % 0x100) as u8),
                (PIT_CHANNEL0_PORT, (PIT_MS_DIVISOR / 0x100) as u8),
            ],
    {
        let mut ws: Vec<(u16, u8)> = Vec::new();
        ws.push((PIT_COMMAND_PORT, 0b0011_0100u8));
        ws.push((PIT_CHANNEL0_PORT, (PIT_MS_DIVISOR % 0x100) as u8));
        ws.push((PIT_CHANNEL0_PORT, (PIT_MS_DIVISOR / 0x100) as u8));
        ws
    }
}

} // verus!
