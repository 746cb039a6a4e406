//! The mode/command byte of the programmable interval timer.
use vstd::prelude::*;

verus! {

/// Operating modes (bits 1 to 3).
#[derive(Debug, Clone, Copy, PartialEq, Eq, Structural)]
pub enum PITOperatingMode {
    InterruptOnTerminalCount,
    HardwareRetriggerableOneShot,
    RateGenerator,
    SquareWaveGenerator,
    SoftwareTriggeredStrobe,
    HardwareTriggeredStrobe,
}

/// Access modes (bits 4 and 5).
#[derive(Debug, Clone, Copy, PartialEq, Eq, Structural)]
pub enum PITAccessMode {
    AccessLowByte,
    AccessHighByte,
    AccessLowByteThenHighByte,
}

/// Channels (bits 6 and 7).
#[derive(Debug, Clone, Copy, PartialEq, Eq, Structural)]
pub enum PITChannel {
    Channel0,
    Channel1,
    Channel2,
}

/// Counter encodings (bit 0).
#[derive(Debug, Clone, Copy, PartialEq, Eq, Structural)]
pub enum PITEncoding {
    Binary,
    BCD,
}

pub open spec fn mode_code(m: PITOperatingMode) -> u8 {
    match m {
        PITOperatingMode::InterruptOnTerminalCount => 0b000,
        PITOperatingMode::HardwareRetriggerableOneShot => 0b001,
        PITOperatingMode::RateGenerator => 0b010,
        PITOperatingMode::SquareWaveGenerator => 0b011,
        PITOperatingMode::SoftwareTriggeredStrobe => 0b100,
        PITOperatingMode::HardwareTriggeredStrobe => 0b101,
    }
}

pub open spec fn access_code(a: PITAccessMode) -> u8 {
    match a {
        PITAccessMode::AccessLowByte => 0b01,
        PITAccessMode::AccessHighByte => 0b10,
        PITAccessMode::AccessLowByteThenHighByte => 0b11,
    }
}

pub open spec fn channel_code(c: PITChannel) -> u8 {
    match c {
        PITChannel::Channel0 => 0b00,
        PITChannel::Channel1 => 0b01,
        PITChannel::Channel2 => 0b10,
    }
}

pub open spec fn encoding_code(e: PITEncoding) -> u8 {
    match e {
        PITEncoding::Binary => 0b0,
        PITEncoding::BCD => 0b1,
    }
}

impl PITOperatingMode {
    pub fn code(self) -> (c: u8)
        ensures
            c == mode_code(self),
    {
        match self {
            PITOperatingMode::InterruptOnTerminalCount => 0b000,
            PITOperatingMode::HardwareRetriggerableOneShot => 0b001,
            PITOperatingMode::RateGenerator => 0b010,
            PITOperatingMode::SquareWaveGenerator => 0b011,
            PITOperatingMode::SoftwareTriggeredStrobe => 0b100,
            PITOperatingMode::HardwareTriggeredStrobe => 0b101,
        }
    }
}

impl PITAccessMode {
    pub fn code(self) -> (c: u8)
        ensures
            c == access_code(self),
    {
        match self {
            PITAccessMode::AccessLowByte => 0b01,
            PITAccessMode::AccessHighByte => 0b10,
            PITAccessMode::AccessLowByteThenHighByte => 0b11,
        }
    }
}

impl PITChannel {
    pub fn code(self) -> (c: u8)
        ensures
            c == channel_code(self),
    {
        match self {
            PITChannel::Channel0 => 0b00,
            PITChannel::Channel1 => 0b01,
            PITChannel::Channel2 => 0b10,
        }
    }
}

impl PITEncoding {
    pub fn code(self) -> (c: u8)
        ensures
            c == encoding_code(self),
    {
        match self {
            PITEncoding::Binary => 0b0,
            PITEncoding::BCD => 0b1,
        }
    }
}

/// The command byte built from its four fields.
pub open spec fn config_byte(
    encoding: PITEncoding,
    mode: PITOperatingMode,
    access_mode: PITAccessMode,
    channel: PITChannel,
) -> u8 {
    (encoding_code(encoding) + mode_code(mode) * 2 + access_code(access_mode) * 16 + channel_code(
        channel,
    ) * 64) as u8
}

/// The command byte.
pub struct PITConfig(u8);

impl View for PITConfig {
    type V = u8;

    closed spec fn view(&self) -> u8 {
        self.0
    }
}

impl PITConfig {
    /// The all-zero command byte.
    pub fn new() -> (c: Self)
        ensures
            c@ == 0,
    {
        PITConfig(0b0)
    }

    /// The command byte with the given fields.
    pub fn build_from(
        encoding: PITEncoding,
        mode: PITOperatingMode,
        access_mode: PITAccessMode,
        channel: PITChannel,
    ) -> (c: Self)
        ensures
            c@ == config_byte(encoding, mode, access_mode, channel),
    {
        let e = encoding.code();
        let m = mode.code();
        let a = access_mode.code();
        let ch = channel.code();
        let v = e | (m << 1u8) | (a << 4u8) | (ch << 6u8);
        assert(v == e + m * 2 + a * 16 + ch * 64) by (bit_vector)
            requires
                e <= 1,
                m <= 5,
                a <= 3,
                ch <= 2,
                v == e | (m << 1u8) | (a << 4u8) | (ch << 6u8),
        ;
        PITConfig(v)
    }

    /// The command byte.
    pub fn get_config(&self) -> (v: u8)
        ensures
            v == self@,
    {
        self.0
    }

    /// Sets bit 0 for BCD, clears it for binary.
    pub fn set_encoding(&mut self, encoding: PITEncoding)
        ensures
            final(self)@ == match encoding {
                PITEncoding::Binary => old(self)@ & 0b1111_1110,
                PITEncoding::BCD => old(self)@ | 0b1,
            },
    {
        match encoding {
            PITEncoding::Binary => self.0 = self.0 & 0b1111_1110,
            PITEncoding::BCD => self.0 = self.0 | 0b1,
        }
    }

    /// Adds the mode bits (bits 1 to 3) to the byte; bits already set stay.
    pub fn set_mode(&mut self, mode: PITOperatingMode)
        ensures
            final(self)@ == old(self)@ | (mode_code(mode) << 1u8),
    {
        self.0 = self.0 | (mode.code() << 1u8);
    }

    /// Adds the access bits (bits 4 and 5) to the byte; bits already set stay.
    pub fn set_access_mode(&mut self, access_mode: PITAccessMode)
        ensures
            final(self)@ == old(self)@ | (access_code(access_mode) << 4u8),
    {
        self.0 = self.0 | (access_mode.code() << 4u8);
    }

    /// Adds the channel bits (bits 6 and 7) to the byte; bits already set stay.
    pub fn set_channel(&mut self, channel: PITChannel)
        ensures
            final(self)@ == old(self)@ | (channel_code(channel) << 6u8),
    {
        self.0 = self.0 | (channel.code() << 6u8);
    }
}

/// The command byte built from four fields holds each of them in its own
/// bits: encoding in bit 0, mode in bits 1 to 3, access mode in bits 4 and
/// 5, channel in bits 6 and 7.
pub proof fn law_config_fields(
    encoding: PITEncoding,
    mode: PITOperatingMode,
    access_mode: PITAccessMode,
    channel: PITChannel,
)
    ensures
        ({
            let b = config_byte(encoding, mode, access_mode, channel);
            &&& b & 1 == encoding_code(encoding)
            &&& (b >> 1u8) & 7 == mode_code(mode)
            &&& (b >> 4u8) & 3 == access_code(access_mode)
            &&& b >> 6u8 == channel_code(channel)
        }),
{
    let (e, m, a, c) = (encoding_code(encoding), mode_code(mode), access_code(access_mode), channel_code(channel));
    let b = config_byte(encoding, mode, access_mode, channel);
    assert(b == (e + m * 2 + a * 16 + c * 64) as u8);
    assert(b & 1 == e && (b >> 1u8) & 7 == m && (b >> 4u8) & 3 == a && b >> 6u8 == c) by (bit_vector)
        requires
            e <= 1,
            m <= 5,
            a <= 3,
            c <= 2,
            b == (e + m * 2 + a * 16 + c * 64) as u8,
    ;
}

/// Selecting BCD and then binary encoding clears bit 0 and keeps the other
/// bits: the same as selecting binary alone.
pub proof fn law_encoding_toggle(byte: u8)
    ensures
        (byte | 0b1) & 0b1111_1110 == byte & 0b1111_1110,
        ((byte | 0b1) & 0b1111_1110) & 1 == 0,
{
    assert((byte | 0b1) & 0b1111_1110 == byte & 0b1111_1110 && ((byte | 0b1) & 0b1111_1110) & 1 == 0)
        by (bit_vector);
}

} // verus!
