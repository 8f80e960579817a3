use plant_minder::sensor::{GrowthStage, I2cError, LightSensorError, PlantConfig, PlatformSensorError, SoilSensorError};
use plant_minder::tsl2591::{
    Gain, IntegrationTime, LightRead, Mode, Tsl2591Error, FAULT_THRESHOLD, TSL2591,
};

#[test]
fn new_sensor_has_the_default_settings() {
    let s = TSL2591::new(0x29);
    assert_eq!(
        s,
        TSL2591 {
            address: 0x29,
            gain: Gain::Medium,
            int_time: IntegrationTime::IntTime300,
            mode: Mode::FullSpectrum,
            fault_count: 0
        }
    );
    assert_eq!(Gain::default(), Gain::Medium);
    assert_eq!(Mode::default(), Mode::FullSpectrum);
    assert_eq!(IntegrationTime::default(), IntegrationTime::IntTime300);
}

#[test]
fn commands_address_the_registers() {
    assert_eq!(TSL2591::enable(), [0xA0, 0x93]);
    assert_eq!(TSL2591::disable(), [0xA0, 0x00]);
    assert_eq!(TSL2591::channel_data_command(), [0xB4]);
    assert_eq!(TSL2591::control_command(IntegrationTime::IntTime300, Gain::Medium), [0xA1, 0x12]);
    assert_eq!(TSL2591::control_command(IntegrationTime::IntTime600, Gain::Max), [0xA1, 0x35]);
    assert_eq!(TSL2591::control_command(IntegrationTime::IntTime100, Gain::Low), [0xA1, 0x00]);
}

#[test]
fn gain_and_timing_fields() {
    assert_eq!([Gain::Low.bits(), Gain::Medium.bits(), Gain::High.bits(), Gain::Max.bits()], [0, 0x10, 0x20, 0x30]);
    assert_eq!([Gain::Low.factor(), Gain::Medium.factor(), Gain::High.factor(), Gain::Max.factor()], [1, 25, 428, 9876]);
    let times = [
        IntegrationTime::IntTime100,
        IntegrationTime::IntTime200,
        IntegrationTime::IntTime300,
        IntegrationTime::IntTime400,
        IntegrationTime::IntTime500,
        IntegrationTime::IntTime600,
    ];
    assert_eq!(times.map(|t| t.bits()), [0, 1, 2, 3, 4, 5]);
    assert_eq!(times.map(|t| t.millis()), [100, 200, 300, 400, 500, 600]);
}

#[test]
fn channel_data_are_little_endian() {
    assert_eq!(TSL2591::get_channel_data([0x34, 0x12, 0x78, 0x56]), 0x5678_1234);
    assert_eq!(TSL2591::get_channel_data([0xff; 4]), u32::MAX);
    assert_eq!(TSL2591::get_channel_data([0; 4]), 0);
}

#[test]
fn luminosity_by_channel() {
    let raw = 0x0010_0100; // infrared 0x10, full 0x100
    assert_eq!(TSL2591::get_luminosity(Mode::FullSpectrum, raw), Some(0x100));
    assert_eq!(TSL2591::get_luminosity(Mode::Infrared, raw), Some(0x10));
    assert_eq!(TSL2591::get_luminosity(Mode::Visible, raw), Some(0xf0));
    let dark = 0x0100_0010; // infrared above full
    assert_eq!(TSL2591::get_luminosity(Mode::Visible, dark), None);
    assert_eq!(TSL2591::get_luminosity(Mode::FullSpectrum, dark), Some(0x10));
}

#[test]
fn lux_channels_are_checked() {
    assert_eq!(TSL2591::get_lux(0x0010_0100), Some((0x100, 0x10)));
    assert_eq!(TSL2591::get_lux(0x0100_0100), Some((0x100, 0x100)));
    for raw in [0x0000_ffffu32, 0xffff_0001, 0x0002_0001, 0x0000_0000] {
        assert_eq!(TSL2591::get_lux(raw), None, "{:#x}", raw);
    }
}

#[test]
fn overflow_is_withheld_below_the_threshold() {
    let overflow = 0x0000_ffffu32;
    let good = 0x0010_0100u32;
    let mut s = TSL2591::new(0x29);
    assert_eq!(FAULT_THRESHOLD, 5);

    // four overflows in a row: the sensor steps through its settings
    let settings = [
        (Gain::High, IntegrationTime::IntTime500, [[0xA1u8, 0x22], [0xA1, 0x24]]),
        (Gain::Max, IntegrationTime::IntTime600, [[0xA1, 0x34], [0xA1, 0x35]]),
        (Gain::Low, IntegrationTime::IntTime100, [[0xA1, 0x05], [0xA1, 0x00]]),
        (Gain::Medium, IntegrationTime::IntTime300, [[0xA1, 0x10], [0xA1, 0x12]]),
    ];
    for (n, (gain, int_time, commands)) in settings.into_iter().enumerate() {
        match s.read(good, overflow) {
            Ok(LightRead::Adjusted(cmds)) => assert_eq!(cmds, commands.to_vec()),
            other => panic!("unexpected {:?}", other),
        }
        assert_eq!((s.gain, s.int_time, s.fault_count), (gain, int_time, n as u32 + 1));
    }
    // the fifth is reported, and so is every further one; the settings stay
    for n in 5..8 {
        assert!(matches!(s.read(good, overflow), Err(Tsl2591Error::SignalOverflow)));
        assert_eq!((s.gain, s.int_time, s.fault_count), (Gain::Medium, IntegrationTime::IntTime300, n));
    }
    // a reading starts the count anew
    match s.read(0x0001_0203, good) {
        Ok(LightRead::Reading { fs, full, infrared }) => assert_eq!((fs, full, infrared), (0x0203, 0x100, 0x10)),
        other => panic!("unexpected {:?}", other),
    }
    assert_eq!(s.fault_count, 0);
    assert!(matches!(s.read(good, overflow), Ok(LightRead::Adjusted(_))));
    assert_eq!(s.fault_count, 1);
    assert!(matches!(s.read(good, good), Ok(LightRead::Reading { .. })));
    assert_eq!((s.gain, s.fault_count), (Gain::High, 0));

    s.fault_count = u32::MAX;
    assert!(matches!(s.read(good, overflow), Err(Tsl2591Error::SignalOverflow)));
    assert_eq!(s.fault_count, u32::MAX);
    s.fault_count = 4;
    assert!(!s.fault_count_threshold());
    s.fault_count = 5;
    assert!(s.fault_count_threshold());
}

#[test]
fn adjustment_steps_through_the_settings() {
    let mut s = TSL2591::new(0x29);
    s.fault_count = 5;
    let cmds = s.adjust_for_current_light();
    assert_eq!((s.gain, s.int_time, s.fault_count), (Gain::High, IntegrationTime::IntTime500, 0));
    // the gain is written with the old timing, then the timing with the new gain
    assert_eq!(cmds, vec![[0xA1, 0x22], [0xA1, 0x24]]);
    s.adjust_for_current_light();
    assert_eq!((s.gain, s.int_time), (Gain::Max, IntegrationTime::IntTime600));
    s.adjust_for_current_light();
    assert_eq!((s.gain, s.int_time), (Gain::Low, IntegrationTime::IntTime100));
    s.adjust_for_current_light();
    assert_eq!((s.gain, s.int_time), (Gain::Medium, IntegrationTime::IntTime300));
}

#[test]
fn configure_programs_what_is_given() {
    let mut s = TSL2591::new(0x29);
    assert!(s.configure(None, None).is_empty());
    assert_eq!(s.configure(Some(Gain::Max), None), vec![[0xA1, 0x32]]);
    assert_eq!(s.configure(None, Some(IntegrationTime::IntTime100)), vec![[0xA1, 0x30]]);
    assert_eq!((s.gain, s.int_time), (Gain::Max, IntegrationTime::IntTime100));
    s.adjust_for_bright_light();
    assert_eq!((s.gain, s.int_time), (Gain::Low, IntegrationTime::IntTime100));
    s.adjust_for_mid_light();
    assert_eq!((s.gain, s.int_time), (Gain::Medium, IntegrationTime::IntTime300));
    s.adjust_for_low_light();
    assert_eq!((s.gain, s.int_time), (Gain::High, IntegrationTime::IntTime500));
    s.adjust_for_ultra_low_light();
    assert_eq!((s.gain, s.int_time), (Gain::Max, IntegrationTime::IntTime600));
    s.set_mode(Mode::Visible);
    assert_eq!(s.mode, Mode::Visible);
}

#[test]
fn errors_convert_upwards() {
    assert_eq!(LightSensorError::from(I2cError::I2cWriteError), LightSensorError::I2cError(I2cError::I2cWriteError));
    assert_eq!(Tsl2591Error::from(I2cError::I2cReadError), Tsl2591Error::I2cError(I2cError::I2cReadError));
    assert_eq!(LightSensorError::from(Tsl2591Error::SignalOverflow), LightSensorError::SignalOverflow);
    assert_eq!(LightSensorError::from(Tsl2591Error::SetupError), LightSensorError::SetupError);
    assert_eq!(LightSensorError::from(Tsl2591Error::SensorError), LightSensorError::SensorError);
    assert_eq!(
        LightSensorError::from(Tsl2591Error::I2cError(I2cError::I2cWriteReadError)),
        LightSensorError::I2cError(I2cError::I2cWriteReadError)
    );
    assert_eq!(
        PlatformSensorError::from(SoilSensorError::I2cReadError),
        PlatformSensorError::SoilSensorError(SoilSensorError::I2cReadError)
    );
    assert_eq!(
        PlatformSensorError::from(LightSensorError::SetupError),
        PlatformSensorError::LightSensorError(LightSensorError::SetupError)
    );
}

#[test]
fn plant_configuration_defaults() {
    let config = PlantConfig::default();
    assert_eq!(config.pot_num, 666);
    assert_eq!(config.name, "SirPots");
    assert_eq!(config.species, "Jade");
    assert_eq!(config.growth_stage, GrowthStage::Vegetative);
    assert_eq!(GrowthStage::default(), GrowthStage::Vegetative);
    assert_eq!(config.srp_port, 12345);
    assert_eq!(config.srp_service_base, "-soil-srvc");
    assert_eq!(config.srp_instance, "_soil._tcp");
    assert_eq!(config.srp_lease, 7200);
    assert_eq!(config.srp_key_lease, 680400);
    assert_eq!(config.coap_registration_port, 1212);
    assert_eq!(config.ot_network_name, "OpenThread-58d1");
    assert_eq!(config.ot_pan_id, 0x58d1);
    assert_eq!(config.ot_channel, 25);
    assert_eq!(config.ot_channel_mask, 0x07fff800);
    assert_eq!(config.ot_ext_pan_id, [0x3a, 0x90, 0xe3, 0xa3, 0x19, 0xa9, 0x04, 0x94]);
    assert_eq!(
        config.ot_network_key,
        [0xfe, 0x04, 0x58, 0xf7, 0xdb, 0x96, 0x35, 0x4e, 0xaa, 0x60, 0x41, 0xb8, 0x80, 0xea, 0x9c, 0x0f]
    );
    assert_eq!(config.ot_child_timeout, 240);
    assert_eq!(config.ot_tx_power, 18);
}

