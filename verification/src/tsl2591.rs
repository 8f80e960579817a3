//! The TSL2591 light sensor: its settings, the commands that program it,
//! and the reading of its channel data. The bus transfers themselves are
//! the driver's; here is what is sent and what is made of the answer.

use crate::sensor::{I2cError, LightSensorError};
use vstd::prelude::*;

verus! {

/// Failure of the light sensor.
#[derive(Clone, Copy, Debug, PartialEq, Eq, Structural)]
pub enum Tsl2591Error {
    I2cError(I2cError),
    SetupError,
    SensorError,
    SignalOverflow,
}

impl From<Tsl2591Error> for LightSensorError {
    fn from(e: Tsl2591Error) -> (res: LightSensorError) {
        match e {
            Tsl2591Error::I2cError(i) => LightSensorError::I2cError(i),
            Tsl2591Error::SensorError => LightSensorError::SensorError,
            Tsl2591Error::SignalOverflow => LightSensorError::SignalOverflow,
            Tsl2591Error::SetupError => LightSensorError::SetupError,
        }
    }
}

impl vstd::std_specs::convert::FromSpecImpl<Tsl2591Error> for LightSensorError {
    open spec fn obeys_from_spec() -> bool {
        true
    }

    open spec fn from_spec(e: Tsl2591Error) -> LightSensorError {
        match e {
            Tsl2591Error::I2cError(i) => LightSensorError::I2cError(i),
            Tsl2591Error::SensorError => LightSensorError::SensorError,
            Tsl2591Error::SignalOverflow => LightSensorError::SignalOverflow,
            Tsl2591Error::SetupError => LightSensorError::SetupError,
        }
    }
}

impl From<I2cError> for Tsl2591Error {
    fn from(e: I2cError) -> (res: Tsl2591Error) {
        Tsl2591Error::I2cError(e)
    }
}

impl vstd::std_specs::convert::FromSpecImpl<I2cError> for Tsl2591Error {
    open spec fn obeys_from_spec() -> bool {
        true
    }

    open spec fn from_spec(e: I2cError) -> Tsl2591Error {
        Tsl2591Error::I2cError(e)
    }
}

/// Analog gain of the sensor.
#[derive(Clone, Copy, Debug, PartialEq, Eq, Structural)]
pub enum Gain {
    Low,
    Medium,
    High,
    Max,
}

/// Which channel a luminosity is read from.
#[derive(Clone, Copy, Debug, PartialEq, Eq, Structural)]
pub enum Mode {
    /// Channel 0.
    FullSpectrum,
    /// Channel 1.
    Infrared,
    /// Channel 0 less channel 1.
    Visible,
}

/// How long the sensor integrates one measurement.
#[derive(Clone, Copy, Debug, PartialEq, Eq, Structural)]
pub enum IntegrationTime {
    IntTime100,
    IntTime200,
    IntTime300,
    IntTime400,
    IntTime500,
    IntTime600,
}

impl Default for Gain {
    fn default() -> (g: Gain)
        ensures
            g == Gain::Medium,
    {
        Gain::Medium
    }
}

impl Default for Mode {
    fn default() -> (m: Mode)
        ensures
            m == Mode::FullSpectrum,
    {
        Mode::FullSpectrum
    }
}

impl Default for IntegrationTime {
    fn default() -> (t: IntegrationTime)
        ensures
            t == IntegrationTime::IntTime300,
    {
        IntegrationTime::IntTime300
    }
}

/// Bits 7 and 5 of a command byte: a normal command.
pub const COMMAND_BIT: u8 = 0xA0;

/// Address of the enable register.
pub const REGISTER_ENABLE: u8 = 0x00;

/// Address of the control register, which holds gain and timing.
pub const REGISTER_CONTROL: u8 = 0x01;

/// Address of the low byte of channel 0, where the channel data begin.
pub const REGISTER_CHAN0_LOW: u8 = 0x14;

/// Enable register: power off.
pub const ENABLE_POWEROFF: u8 = 0x00;

/// Enable register: power on, ALS on, both interrupts on.
pub const ENABLE_FLAGS: u8 = 0x93;

/// Consecutive overflows after which the settings are adjusted.
pub const FAULT_THRESHOLD: u32 = 5;

impl Gain {
    /// The gain's field of the control register.
    pub open spec fn spec_bits(self) -> u8 {
        match self {
            Gain::Low => 0x00,
            Gain::Medium => 0x10,
            Gain::High => 0x20,
            Gain::Max => 0x30,
        }
    }

    /// The gain's field of the control register.
    pub fn bits(self) -> (b: u8)
        ensures
            b == self.spec_bits(),
    {
        match self {
            Gain::Low => 0x00,
            Gain::Medium => 0x10,
            Gain::High => 0x20,
            Gain::Max => 0x30,
        }
    }

    /// The factor by which the gain amplifies.
    pub open spec fn spec_factor(self) -> u32 {
        match self {
            Gain::Low => 1,
            Gain::Medium => 25,
            Gain::High => 428,
            Gain::Max => 9876,
        }
    }

    /// The factor by which the gain amplifies.
    pub fn factor(self) -> (f: u32)
        ensures
            f == self.spec_factor(),
    {
        match self {
            Gain::Low => 1,
            Gain::Medium => 25,
            Gain::High => 428,
            Gain::Max => 9876,
        }
    }
}

impl IntegrationTime {
    /// The time's field of the control register.
    pub open spec fn spec_bits(self) -> u8 {
        match self {
            IntegrationTime::IntTime100 => 0,
            IntegrationTime::IntTime200 => 1,
            IntegrationTime::IntTime300 => 2,
            IntegrationTime::IntTime400 => 3,
            IntegrationTime::IntTime500 => 4,
            IntegrationTime::IntTime600 => 5,
        }
    }

    /// The time's field of the control register.
    pub fn bits(self) -> (b: u8)
        ensures
            b == self.spec_bits(),
    {
        match self {
            IntegrationTime::IntTime100 => 0,
            IntegrationTime::IntTime200 => 1,
            IntegrationTime::IntTime300 => 2,
            IntegrationTime::IntTime400 => 3,
            IntegrationTime::IntTime500 => 4,
            IntegrationTime::IntTime600 => 5,
        }
    }

    /// The time in milliseconds.
    pub open spec fn spec_millis(self) -> u32 {
        ((self.spec_bits() + 1) * 100) as u32
    }

    /// The time in milliseconds.
    pub fn millis(self) -> (ms: u32)
        ensures
            ms == self.spec_millis(),
    {
        let b: u32 = self.bits() as u32;
        (b + 1) * 100
    }
}

/// The setting to move to from `gain` when readings keep overflowing: one
/// step more sensitive, and from the most sensitive back to the least.
pub open spec fn next_setting(gain: Gain) -> (Gain, IntegrationTime) {
    match gain {
        Gain::Low => (Gain::Medium, IntegrationTime::IntTime300),
        Gain::Medium => (Gain::High, IntegrationTime::IntTime500),
        Gain::High => (Gain::Max, IntegrationTime::IntTime600),
        Gain::Max => (Gain::Low, IntegrationTime::IntTime100),
    }
}

/// The full-spectrum channel of the channel data: the low half.
pub open spec fn full_channel(raw: u32) -> u16 {
    (raw % 0x1_0000) as u16
}

/// The infrared channel of the channel data: the high half.
pub open spec fn infrared_channel(raw: u32) -> u16 {
    (raw / 0x1_0000) as u16
}

/// The 32-bit number that four bytes write, least significant first.
pub open spec fn le_u32(data: Seq<u8>) -> u32 {
    (data[0] + data[1] * 0x100 + data[2] * 0x1_0000 + data[3] * 0x100_0000) as u32
}

/// The luminosity of `channel` in the channel data `raw`, where it can be
/// told.
pub open spec fn luminosity(channel: Mode, raw: u32) -> Option<u16> {
    match channel {
        Mode::Visible => if full_channel(raw) < infrared_channel(raw) {
            None
        } else {
            Some((full_channel(raw) - infrared_channel(raw)) as u16)
        },
        Mode::Infrared => Some(infrared_channel(raw)),
        Mode::FullSpectrum => Some(full_channel(raw)),
    }
}

/// The full-spectrum and the infrared channel of the channel data `raw`,
/// where the illuminance can be computed from them: neither channel
/// saturated, the full spectrum not zero and not below the infrared part.
/// Else the data overflowed.
pub open spec fn lux_channels(raw: u32) -> Option<(u16, u16)> {
    if full_channel(raw) != 0xffff && infrared_channel(raw) != 0xffff && full_channel(raw) != 0
        && full_channel(raw) >= infrared_channel(raw) {
        Some((full_channel(raw), infrared_channel(raw)))
    } else {
        None
    }
}

/// Whether one more overflow, after `count` in a row, is reported: whether
/// it is the one that reaches the threshold, or a later one.
pub open spec fn surfaced(count: u32) -> bool {
    counted_fault(count) >= FAULT_THRESHOLD
}

/// Whether `cmds` are the two commands that move a sensor with the
/// integration time `int_time` to the setting `next`: first the new gain
/// with the old time, then the new time with the new gain.
pub open spec fn adjustment(
    cmds: Seq<[u8; 2]>,
    int_time: IntegrationTime,
    next: (Gain, IntegrationTime),
) -> bool {
    &&& cmds.len() == 2
    &&& cmds[0]@ == seq![0xA1u8, int_time.spec_bits() | next.0.spec_bits()]
    &&& cmds[1]@ == seq![0xA1u8, next.1.spec_bits() | next.0.spec_bits()]
}

/// What one reading of the light sensor gave.
#[derive(Debug)]
pub enum LightRead {
    /// The reading: the full-spectrum luminosity, and the two channels
    /// from which the illuminance is computed.
    Reading { fs: u16, full: u16, infrared: u16 },
    /// No reading: the channel data overflowed and the sensor moved to
    /// another setting. These commands program it; then it is read again.
    Adjusted(Vec<[u8; 2]>),
}

/// The fault count after one more fault; it stops at the largest number.
pub open spec fn counted_fault(count: u32) -> u32 {
    if count < u32::MAX {
        (count + 1) as u32
    } else {
        count
    }
}

/// Settings and fault count of one TSL2591.
#[derive(Clone, Copy, Debug, PartialEq, Eq, Structural)]
pub struct TSL2591 {
    pub address: u8,
    pub gain: Gain,
    pub int_time: IntegrationTime,
    pub mode: Mode,
    pub fault_count: u32,
}

impl TSL2591 {
    /// A sensor at bus address `address` with the default settings and no
    /// fault counted.
    pub fn new(address: u8) -> (s: Self)
        ensures
            s == (TSL2591 {
                address,
                gain: Gain::Medium,
                int_time: IntegrationTime::IntTime300,
                mode: Mode::FullSpectrum,
                fault_count: 0,
            }),
    {
        TSL2591 {
            address,
            gain: Gain::Medium,
            int_time: IntegrationTime::IntTime300,
            mode: Mode::FullSpectrum,
            fault_count: 0,
        }
    }

    /// The command that powers the sensor on.
    pub fn enable() -> (cmd: [u8; 2])
        ensures
            cmd@ == seq![0xA0u8, 0x93u8],
    {
        let cmd: [u8; 2] = [COMMAND_BIT | REGISTER_ENABLE, ENABLE_FLAGS];
        assert(0xA0u8 | 0x00u8 == 0xA0u8) by (bit_vector);
        assert(cmd@ =~= seq![0xA0u8, 0x93u8]);
        cmd
    }

    /// The command that powers the sensor off.
    pub fn disable() -> (cmd: [u8; 2])
        ensures
            cmd@ == seq![0xA0u8, 0x00u8],
    {
        let cmd: [u8; 2] = [COMMAND_BIT | REGISTER_ENABLE, ENABLE_POWEROFF];
        assert(0xA0u8 | 0x00u8 == 0xA0u8) by (bit_vector);
        assert(cmd@ =~= seq![0xA0u8, 0x00u8]);
        cmd
    }

    /// The command that writes `int_time` and `gain` to the control
    /// register.
    pub fn control_command(int_time: IntegrationTime, gain: Gain) -> (cmd: [u8; 2])
        ensures
            cmd@ == seq![0xA1u8, int_time.spec_bits() | gain.spec_bits()],
    {
        let cmd: [u8; 2] = [COMMAND_BIT | REGISTER_CONTROL, int_time.bits() | gain.bits()];
        assert(0xA0u8 | 0x01u8 == 0xA1u8) by (bit_vector);
        assert(cmd@ =~= seq![0xA1u8, int_time.spec_bits() | gain.spec_bits()]);
        cmd
    }

    /// The command that asks for the four bytes of channel data.
    pub fn channel_data_command() -> (cmd: [u8; 1])
        ensures
            cmd@ == seq![0xB4u8],
    {
        let cmd: [u8; 1] = [COMMAND_BIT | REGISTER_CHAN0_LOW];
        assert(0xA0u8 | 0x14u8 == 0xB4u8) by (bit_vector);
        assert(cmd@ =~= seq![0xB4u8]);
        cmd
    }

    /// The channel data that the four bytes read from the sensor hold.
    pub fn get_channel_data(data: [u8; 4]) -> (raw: u32)
        ensures
            raw == le_u32(data@),
    {
        let b0: u32 = data[0] as u32;
        let b1: u32 = data[1] as u32;
        let b2: u32 = data[2] as u32;
        let b3: u32 = data[3] as u32;
        b0 + b1 * 0x100 + b2 * 0x1_0000 + b3 * 0x100_0000
    }

    /// Sets the channel that luminosities are read from.
    pub fn set_mode(&mut self, mode: Mode)
        ensures
            *final(self) == (TSL2591 { mode, ..*old(self) }),
    {
        self.mode = mode;
    }

    /// The sensor once `gain` and `int_time`, where given, are programmed.
    pub fn configure(&mut self, gain: Option<Gain>, int_time: Option<IntegrationTime>) -> (cmds:
        Vec<[u8; 2]>)
        ensures
            final(self).gain == (match gain {
                Some(g) => g,
                None => old(self).gain,
            }),
            final(self).int_time == (match int_time {
                Some(t) => t,
                None => old(self).int_time,
            }),
            final(self).address == old(self).address,
            final(self).mode == old(self).mode,
            final(self).fault_count == old(self).fault_count,
            cmds@.len() == (if gain is Some {
                1int
            } else {
                0int
            }) + (if int_time is Some {
                1int
            } else {
                0int
            }),
            gain matches Some(g) ==> cmds@[0]@ == seq![
                0xA1u8,
                old(self).int_time.spec_bits() | g.spec_bits(),
            ],
            int_time matches Some(t) ==> cmds@.last()@ == seq![
                0xA1u8,
                t.spec_bits() | final(self).gain.spec_bits(),
            ],
    {
        let mut cmds: Vec<[u8; 2]> = Vec::new();
        match gain {
            Some(g) => {
                cmds.push(Self::control_command(self.int_time, g));
                self.gain = g;
            },
            None => {},
        }
        match int_time {
            Some(t) => {
                cmds.push(Self::control_command(t, self.gain));
                self.int_time = t;
            },
            None => {},
        }
        cmds
    }

    /// Whether readings have overflowed so often that the settings are
    /// due for adjustment.
    pub fn fault_count_threshold(&self) -> (r: bool)
        ensures
            r == (self.fault_count >= FAULT_THRESHOLD),
    {
        self.fault_count >= FAULT_THRESHOLD
    }

    /// Moves to the next setting and starts counting faults anew. Gives the
    /// commands that program the sensor accordingly.
    pub fn adjust_for_current_light(&mut self) -> (cmds: Vec<[u8; 2]>)
        ensures
            final(self).gain == next_setting(old(self).gain).0,
            final(self).int_time == next_setting(old(self).gain).1,
            final(self).fault_count == 0,
            final(self).address == old(self).address,
            final(self).mode == old(self).mode,
            cmds@.len() == 2,
    {
        let cmds = match self.gain {
            Gain::Low => self.adjust_for_mid_light(),
            Gain::Medium => self.adjust_for_low_light(),
            Gain::High => self.adjust_for_ultra_low_light(),
            Gain::Max => self.adjust_for_bright_light(),
        };
        self.fault_count = 0;
        cmds
    }

    /// Least sensitive setting, for bright light.
    pub fn adjust_for_bright_light(&mut self) -> (cmds: Vec<[u8; 2]>)
        ensures
            *final(self) == (TSL2591 {
                gain: Gain::Low,
                int_time: IntegrationTime::IntTime100,
                ..*old(self)
            }),
            cmds@.len() == 2,
    {
        self.configure(Some(Gain::Low), Some(IntegrationTime::IntTime100))
    }

    /// Default setting, for medium light.
    pub fn adjust_for_mid_light(&mut self) -> (cmds: Vec<[u8; 2]>)
        ensures
            *final(self) == (TSL2591 {
                gain: Gain::Medium,
                int_time: IntegrationTime::IntTime300,
                ..*old(self)
            }),
            cmds@.len() == 2,
    {
        self.configure(Some(Gain::Medium), Some(IntegrationTime::IntTime300))
    }

    /// Sensitive setting, for low light.
    pub fn adjust_for_low_light(&mut self) -> (cmds: Vec<[u8; 2]>)
        ensures
            *final(self) == (TSL2591 {
                gain: Gain::High,
                int_time: IntegrationTime::IntTime500,
                ..*old(self)
            }),
            cmds@.len() == 2,
    {
        self.configure(Some(Gain::High), Some(IntegrationTime::IntTime500))
    }

    /// Most sensitive setting, for very low light.
    pub fn adjust_for_ultra_low_light(&mut self) -> (cmds: Vec<[u8; 2]>)
        ensures
            *final(self) == (TSL2591 {
                gain: Gain::Max,
                int_time: IntegrationTime::IntTime600,
                ..*old(self)
            }),
            cmds@.len() == 2,
    {
        self.configure(Some(Gain::Max), Some(IntegrationTime::IntTime600))
    }

    /// The luminosity of `channel` in the channel data `raw`; none where
    /// the infrared part exceeds the full spectrum, so that the visible
    /// light cannot be told.
    pub fn get_luminosity(channel: Mode, raw: u32) -> (res: Option<u16>)
        ensures
            res == luminosity(channel, raw),
    {
        let full: u16 = (raw % 0x1_0000) as u16;
        let infra: u16 = (raw / 0x1_0000) as u16;
        match channel {
            Mode::Visible => {
                if full < infra {
                    None
                } else {
                    Some(full - infra)
                }
            },
            Mode::Infrared => Some(infra),
            Mode::FullSpectrum => Some(full),
        }
    }

    /// The two channels from which the illuminance is computed; none where
    /// the channel data overflowed.
    pub fn get_lux(raw: u32) -> (res: Option<(u16, u16)>)
        ensures
            res == lux_channels(raw),
    {
        let full: u16 = (raw % 0x1_0000) as u16;
        let infra: u16 = (raw / 0x1_0000) as u16;
        if full == 0xffff || infra == 0xffff || full < infra || full == 0 {
            None
        } else {
            Some((full, infra))
        }
    }

    /// One reading of the sensor, from the channel data of two transfers:
    /// the first gives the full-spectrum luminosity, the second the two
    /// channels of the illuminance.
    ///
    /// Where the second did not overflow, this is the reading, and the
    /// faults are counted anew. Where it overflowed, the fault is counted.
    /// Below `FAULT_THRESHOLD` overflows in a row the error is withheld:
    /// the sensor moves to the next setting, and here are the commands that
    /// program it before it is read again. From the threshold on, the
    /// overflow is reported and the settings stay.
    pub fn read(&mut self, luminosity_data: u32, lux_data: u32) -> (res: Result<
        LightRead,
        Tsl2591Error,
    >)
        ensures
            final(self).address == old(self).address,
            final(self).mode == old(self).mode,
            lux_channels(lux_data) matches Some(channels) ==> {
                &&& res == Ok::<LightRead, Tsl2591Error>(
                    LightRead::Reading {
                        fs: full_channel(luminosity_data),
                        full: channels.0,
                        infrared: channels.1,
                    },
                )
                &&& *final(self) == (TSL2591 { fault_count: 0, ..*old(self) })
            },
            lux_channels(lux_data) is None ==> final(self).fault_count == counted_fault(
                old(self).fault_count,
            ),
            lux_channels(lux_data) is None && surfaced(old(self).fault_count) ==> {
                &&& res == Err::<LightRead, Tsl2591Error>(Tsl2591Error::SignalOverflow)
                &&& final(self).gain == old(self).gain
                &&& final(self).int_time == old(self).int_time
            },
            lux_channels(lux_data) is None && !surfaced(old(self).fault_count) ==> {
                &&& res matches Ok(LightRead::Adjusted(cmds))
                &&& final(self).gain == next_setting(old(self).gain).0
                &&& final(self).int_time == next_setting(old(self).gain).1
                &&& adjustment(cmds@, old(self).int_time, next_setting(old(self).gain))
            },
    {
        match Self::get_lux(lux_data) {
            Some((full, infrared)) => {
                self.fault_count = 0;
                Ok(
                    LightRead::Reading {
                        fs: (luminosity_data % 0x1_0000) as u16,
                        full,
                        infrared,
                    },
                )
            },
            None => {
                self.fault_count = self.fault_count.saturating_add(1);
                if self.fault_count >= FAULT_THRESHOLD {
                    Err(Tsl2591Error::SignalOverflow)
                } else {
                    let (gain, int_time) = match self.gain {
                        Gain::Low => (Gain::Medium, IntegrationTime::IntTime300),
                        Gain::Medium => (Gain::High, IntegrationTime::IntTime500),
                        Gain::High => (Gain::Max, IntegrationTime::IntTime600),
                        Gain::Max => (Gain::Low, IntegrationTime::IntTime100),
                    };
                    Ok(LightRead::Adjusted(self.configure(Some(gain), Some(int_time))))
                }
            },
        }
    }
}

} // verus!
