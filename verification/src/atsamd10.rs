//! The ATSAMD10 "seesaw" soil sensor: the commands that ask it for
//! moisture and temperature, and the reading of its answers.

use vstd::prelude::*;

verus! {

/// Bus address of the sensor as it is shipped.
pub const DEFAULT_ADDRESS: u8 = 0x36;

/// Microseconds to wait for a temperature after asking.
pub const DEFAULT_TEMP_DELAY: u32 = 2000;

/// Microseconds to wait for a moisture after asking.
pub const DEFAULT_MOISTURE_DELAY: u32 = 5000;

/// The 16-bit number that two bytes write, most significant first.
pub open spec fn be_u16(data: Seq<u8>) -> u16 {
    (data[0] * 0x100 + data[1]) as u16
}

/// The 32-bit number that four bytes write, most significant first.
pub open spec fn be_u32(data: Seq<u8>) -> u32 {
    (data[0] * 0x100_0000 + data[1] * 0x1_0000 + data[2] * 0x100 + data[3]) as u32
}

/// Where on the bus one soil sensor sits and how long it takes to answer.
#[derive(Clone, Copy, Debug, PartialEq, Eq, Structural)]
pub struct ATSAMD10 {
    pub temp_delay: u32,
    pub moisture_delay: u32,
    pub address: u8,
}

impl ATSAMD10 {
    /// A sensor at `address` with the given delays.
    pub fn new(address: u8, temp_delay: u32, moisture_delay: u32) -> (s: Self)
        ensures
            s == (ATSAMD10 { temp_delay, moisture_delay, address }),
    {
        ATSAMD10 { temp_delay, moisture_delay, address }
    }

    /// The command that asks for the moisture: touch module, channel 0.
    pub fn read_moisture_command() -> (cmd: [u8; 2])
        ensures
            cmd@ == seq![0x0fu8, 0x10u8],
    {
        let cmd: [u8; 2] = [0x0f, 0x10];
        assert(cmd@ =~= seq![0x0fu8, 0x10u8]);
        cmd
    }

    /// The command that asks for the temperature: status module,
    /// temperature register.
    pub fn read_temp_command() -> (cmd: [u8; 2])
        ensures
            cmd@ == seq![0x00u8, 0x04u8],
    {
        let cmd: [u8; 2] = [0x00, 0x04];
        assert(cmd@ =~= seq![0x00u8, 0x04u8]);
        cmd
    }

    /// The moisture that the two bytes of the sensor's answer hold.
    pub fn moisture(buffer: [u8; 2]) -> (m: u16)
        ensures
            m == be_u16(buffer@),
    {
        let hi: u16 = buffer[0] as u16;
        let lo: u16 = buffer[1] as u16;
        hi * 0x100 + lo
    }

    /// The temperature that the four bytes of the sensor's answer hold, in
    /// units of 1/65536 degree Celsius, as a two's-complement number.
    pub fn temperature(buffer: [u8; 4]) -> (raw: u32)
        ensures
            raw == be_u32(buffer@),
    {
        let b0: u32 = buffer[0] as u32;
        let b1: u32 = buffer[1] as u32;
        let b2: u32 = buffer[2] as u32;
        let b3: u32 = buffer[3] as u32;
        b0 * 0x100_0000 + b1 * 0x1_0000 + b2 * 0x100 + b3
    }
}

} // verus!
