//! What a node measures and how its sensors hand their readings over.

use vstd::prelude::*;

verus! {

/// UDP port on which a node serves CoAP-observe registrations.
pub const BOUND_PORT: u16 = 1212;

/// Number of sensor slots of a node.
pub const MAX_SENSORS: usize = 5;

/// Slot of the soil sensor.
pub const SOIL_IDX: usize = 0;

/// Slot of the first light sensor.
pub const LIGHT_IDX_1: usize = 1;

/// Slot of the humidity and gas sensor.
pub const HUM_IDX: usize = 2;

/// Slot of the second light sensor.
pub const LIGHT_IDX_2: usize = 3;

/// Slot of any other sensor.
pub const OTHER_IDX: usize = 4;

/// A single-precision number, carried as its IEEE 754 bit pattern.
#[derive(Clone, Copy, Debug, Default, PartialEq, Eq, Structural)]
pub struct Float32 {
    pub bits: u32,
}

/// How far a plant has grown.
#[derive(Clone, Copy, Debug, PartialEq, Eq, Structural)]
pub enum GrowthStage {
    Sprouting,
    Seedling,
    Vegetative,
    Reproductive,
    Senescence,
}

impl Default for GrowthStage {
    fn default() -> (stage: GrowthStage)
        ensures
            stage == GrowthStage::Vegetative,
    {
        GrowthStage::Vegetative
    }
}

/// What a node is built with: the plant it watches and the parameters of
/// its Thread network and service registration.
#[derive(Clone, Copy, Debug)]
pub struct PlantConfig {
    pub pot_num: u32,
    pub name: &'static str,
    pub species: &'static str,
    pub growth_stage: GrowthStage,
    pub srp_port: u16,
    pub srp_service_base: &'static str,
    pub srp_instance: &'static str,
    pub srp_lease: u32,
    pub srp_key_lease: u32,
    pub coap_registration_port: u16,
    pub ot_network_name: &'static str,
    pub ot_pan_id: u16,
    pub ot_channel: u8,
    pub ot_channel_mask: u32,
    pub ot_ext_pan_id: [u8; 8],
    pub ot_network_key: [u8; 16],
    pub ot_child_timeout: u32,
    pub ot_tx_power: i8,
}

impl Default for PlantConfig {
    fn default() -> (config: PlantConfig)
        ensures
            config.pot_num == 666,
            config.name@ == "SirPots"@,
            config.species@ == "Jade"@,
            config.growth_stage == GrowthStage::Vegetative,
            config.srp_port == 12345,
            config.srp_service_base@ == "-soil-srvc"@,
            config.srp_instance@ == "_soil._tcp"@,
            config.srp_lease == 7200,
            config.srp_key_lease == 680400,
            config.coap_registration_port == BOUND_PORT,
            config.ot_network_name@ == "OpenThread-58d1"@,
            config.ot_pan_id == 0x58d1,
            config.ot_channel == 25,
            config.ot_channel_mask == 0x07fff800,
            config.ot_ext_pan_id@ == seq![0x3au8, 0x90, 0xe3, 0xa3, 0x19, 0xa9, 0x04, 0x94],
            config.ot_network_key@ == seq![
                0xfeu8,
                0x04,
                0x58,
                0xf7,
                0xdb,
                0x96,
                0x35,
                0x4e,
                0xaa,
                0x60,
                0x41,
                0xb8,
                0x80,
                0xea,
                0x9c,
                0x0f,
            ],
            config.ot_child_timeout == 240,
            config.ot_tx_power == 18,
    {
        let ot_ext_pan_id: [u8; 8] = [0x3a, 0x90, 0xe3, 0xa3, 0x19, 0xa9, 0x04, 0x94];
        let ot_network_key: [u8; 16] = [
            0xfe,
            0x04,
            0x58,
            0xf7,
            0xdb,
            0x96,
            0x35,
            0x4e,
            0xaa,
            0x60,
            0x41,
            0xb8,
            0x80,
            0xea,
            0x9c,
            0x0f,
        ];
        proof {
            assert(ot_ext_pan_id@ =~= seq![0x3au8, 0x90, 0xe3, 0xa3, 0x19, 0xa9, 0x04, 0x94]);
            assert(ot_network_key@ =~= seq![
                0xfeu8,
                0x04,
                0x58,
                0xf7,
                0xdb,
                0x96,
                0x35,
                0x4e,
                0xaa,
                0x60,
                0x41,
                0xb8,
                0x80,
                0xea,
                0x9c,
                0x0f,
            ]);
        }
        PlantConfig {
            pot_num: 666,
            name: "SirPots",
            species: "Jade",
            growth_stage: GrowthStage::Vegetative,
            srp_port: 12345,
            srp_service_base: "-soil-srvc",
            srp_instance: "_soil._tcp",
            srp_lease: 7200,
            srp_key_lease: 680400,
            coap_registration_port: BOUND_PORT,
            ot_network_name: "OpenThread-58d1",
            ot_pan_id: 0x58d1,
            ot_channel: 25,
            ot_channel_mask: 0x07fff800,
            ot_ext_pan_id,
            ot_network_key,
            ot_child_timeout: 240,
            ot_tx_power: 18,
        }
    }
}

/// Soil measurement; every node has one.
#[derive(Clone, Copy, Debug, Default, PartialEq, Eq, Structural)]
pub struct Soil {
    /// Soil moisture.
    pub moisture: u16,
    /// Soil temperature; zero where the sensor has none.
    pub temp: Float32,
}

/// Light measurement.
#[derive(Clone, Copy, Debug, Default, PartialEq, Eq, Structural)]
pub struct Light {
    /// Full-spectrum reading.
    pub fs: u16,
    /// Illuminance in lux.
    pub lux: Float32,
}

/// Air measurement.
#[derive(Clone, Copy, Debug, Default, PartialEq, Eq, Structural)]
pub struct Gas {
    /// Temperature.
    pub temp: Float32,
    /// Pressure.
    pub p: Float32,
    /// Humidity.
    pub h: Float32,
    /// Gas resistance.
    pub gas: u32,
}

/// One reading of a node: the soil, and light and air where the node has
/// those sensors. The gateway stamps the time of receipt.
#[derive(Clone, Copy, Debug, Default, PartialEq, Eq, Structural)]
pub struct SensorReading {
    pub soil: Soil,
    pub light: Option<Light>,
    pub gas: Option<Gas>,
    pub ts: i64,
}

/// Failure of a transfer on the I2C bus.
#[derive(Clone, Copy, Debug, PartialEq, Eq, Structural)]
pub enum I2cError {
    I2cReadError,
    I2cWriteError,
    I2cWriteReadError,
}

/// Failure of a light sensor.
#[derive(Clone, Copy, Debug, PartialEq, Eq, Structural)]
pub enum LightSensorError {
    I2cError(I2cError),
    SetupError,
    SensorError,
    SignalOverflow,
}

/// Failure of a soil sensor.
#[derive(Clone, Copy, Debug, PartialEq, Eq, Structural)]
pub enum SoilSensorError {
    I2cReadError,
    I2cWriteError,
}

/// Failure of any sensor of the platform.
#[derive(Clone, Copy, Debug, PartialEq, Eq, Structural)]
pub enum PlatformSensorError {
    SoilSensorError(SoilSensorError),
    LightSensorError(LightSensorError),
    SensorSetup,
    Other,
}

impl From<I2cError> for LightSensorError {
    fn from(e: I2cError) -> (res: LightSensorError) {
        LightSensorError::I2cError(e)
    }
}

impl vstd::std_specs::convert::FromSpecImpl<I2cError> for LightSensorError {
    open spec fn obeys_from_spec() -> bool {
        true
    }

    open spec fn from_spec(e: I2cError) -> LightSensorError {
        LightSensorError::I2cError(e)
    }
}

impl From<SoilSensorError> for PlatformSensorError {
    fn from(e: SoilSensorError) -> (res: PlatformSensorError) {
        PlatformSensorError::SoilSensorError(e)
    }
}

impl vstd::std_specs::convert::FromSpecImpl<SoilSensorError> for PlatformSensorError {
    open spec fn obeys_from_spec() -> bool {
        true
    }

    open spec fn from_spec(e: SoilSensorError) -> PlatformSensorError {
        PlatformSensorError::SoilSensorError(e)
    }
}

impl From<LightSensorError> for PlatformSensorError {
    fn from(e: LightSensorError) -> (res: PlatformSensorError) {
        PlatformSensorError::LightSensorError(e)
    }
}

impl vstd::std_specs::convert::FromSpecImpl<LightSensorError> for PlatformSensorError {
    open spec fn obeys_from_spec() -> bool {
        true
    }

    open spec fn from_spec(e: LightSensorError) -> PlatformSensorError {
        PlatformSensorError::LightSensorError(e)
    }
}

/// A sensor of any kind: writes one self-delimited record into `buffer`
/// from `index` on and tells how many bytes it wrote.
pub trait Sensor {
    fn read(&mut self, buffer: &mut [u8], index: usize) -> Result<usize, PlatformSensorError>;
}

/// The platform's reading of all its sensors into one `SensorReading`.
pub trait SensorPlatform {
    fn sensor_read(&mut self, buff: &mut [u8]) -> Result<SensorReading, PlatformSensorError>;
}

/// A sensor that measures moisture.
pub trait MoistureSensor {
    fn moisture(&mut self, buffer: &mut [u8], start: usize) -> Result<usize, SoilSensorError>;
}

/// A sensor that measures temperature.
pub trait TempSensor {
    fn temp(&mut self, buffer: &mut [u8], start: usize) -> Result<usize, SoilSensorError>;
}

/// A sensor that measures luminosity.
pub trait LightLumenSensor {
    fn luminosity(&mut self, buffer: &mut [u8], start: usize) -> Result<usize, LightSensorError>;
}

/// A sensor that measures illuminance.
pub trait LightLuxSensor {
    fn lux(&mut self, buffer: &mut [u8], start: usize) -> Result<usize, LightSensorError>;
}

} // verus!
