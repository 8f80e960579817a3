use plant_minder::addr::Ipv6Addr;
use plant_minder::coap::registration_request;
use plant_minder::platform::{
    challenge_bytes, next_frame, Esp32Platform, Esp32PlatformError, Frame, NetworkChange, Recovery,
    TimerAction,
};
use plant_minder::sensor::{
    LightSensorError, PlatformSensorError, Sensor, SoilSensorError, BOUND_PORT, HUM_IDX,
    LIGHT_IDX_1, LIGHT_IDX_2, MAX_SENSORS, OTHER_IDX, SOIL_IDX,
};

struct Canned {
    record: Vec<u8>,
    fail: Option<PlatformSensorError>,
    claim: Option<usize>,
}

impl Canned {
    fn writing(record: &[u8]) -> Option<Canned> {
        Some(Canned { record: record.to_vec(), fail: None, claim: None })
    }
}

impl Sensor for Canned {
    fn read(&mut self, buffer: &mut [u8], index: usize) -> Result<usize, PlatformSensorError> {
        if let Some(e) = self.fail {
            return Err(e);
        }
        if let Some(n) = self.claim {
            return Ok(n);
        }
        let end = index + self.record.len();
        if end > buffer.len() {
            return Err(PlatformSensorError::Other);
        }
        buffer[index..end].copy_from_slice(&self.record);
        Ok(self.record.len())
    }
}

fn gateway() -> Ipv6Addr {
    Ipv6Addr::from_segments([0xfd00, 0, 0, 0, 0, 0, 0, 0x99])
}

fn node(sensors: Vec<Option<Canned>>) -> Esp32Platform<Canned> {
    Esp32Platform::new(sensors, [1, 2, 3, 4, 5, 6], b"fern".to_vec())
}

#[test]
fn records_are_laid_out_one_behind_the_other() {
    let soil = br#"{"moisture":820,"temp":71.5}"#;
    let gas = br#"{"temp":70.0,"p":1000.0,"h":40.0,"gas":5}"#;
    let mut platform = node(vec![Canned::writing(soil), None, Canned::writing(gas), None, None]);
    let mut buffer = [0u8; 127];
    let frames = platform.sensor_read(&mut buffer).unwrap();
    assert_eq!(
        frames,
        vec![
            Frame { slot: SOIL_IDX, start: 0, len: soil.len() },
            Frame { slot: HUM_IDX, start: soil.len(), len: gas.len() },
        ]
    );
    assert_eq!(&buffer[..soil.len()], soil);
    assert_eq!(&buffer[soil.len()..soil.len() + gas.len()], gas);
    assert_eq!((SOIL_IDX, LIGHT_IDX_1, HUM_IDX, LIGHT_IDX_2, OTHER_IDX, MAX_SENSORS), (0, 1, 2, 3, 4, 5));
}

#[test]
fn failing_sensor_ends_the_reading() {
    let failing = Canned {
        record: Vec::new(),
        fail: Some(PlatformSensorError::LightSensorError(LightSensorError::SignalOverflow)),
        claim: None,
    };
    let mut platform = node(vec![Canned::writing(b"{}"), Some(failing), Canned::writing(b"{}")]);
    let mut buffer = [0u8; 16];
    assert_eq!(
        platform.sensor_read(&mut buffer),
        Err(PlatformSensorError::LightSensorError(LightSensorError::SignalOverflow))
    );
}

#[test]
fn sensor_that_claims_too_much_is_refused() {
    let liar = Canned { record: Vec::new(), fail: None, claim: Some(15) };
    let mut platform = node(vec![Canned::writing(b"{}"), Some(liar)]);
    let mut buffer = [0u8; 16];
    assert_eq!(platform.sensor_read(&mut buffer), Err(PlatformSensorError::Other));

    let fits = Canned { record: Vec::new(), fail: None, claim: Some(14) };
    let mut platform = node(vec![Canned::writing(b"{}"), Some(fits)]);
    assert_eq!(
        platform.sensor_read(&mut buffer).unwrap(),
        vec![Frame { slot: 0, start: 0, len: 2 }, Frame { slot: 1, start: 2, len: 14 }]
    );
}

#[test]
fn node_without_sensors_reads_nothing() {
    let mut platform = node(vec![None, None]);
    let mut buffer = [0u8; 4];
    assert!(platform.sensor_read(&mut buffer).unwrap().is_empty());
    let mut none: Esp32Platform<Canned> = node(Vec::new());
    assert!(none.sensor_read(&mut buffer).unwrap().is_empty());
}

#[test]
fn next_frame_checks_the_claimed_length() {
    assert_eq!(next_frame(2, 10, 20, Ok(10)), Ok(Frame { slot: 2, start: 10, len: 10 }));
    assert_eq!(next_frame(2, 10, 20, Ok(11)), Err(PlatformSensorError::Other));
    assert_eq!(next_frame(2, 10, 20, Ok(usize::MAX)), Err(PlatformSensorError::Other));
    assert_eq!(next_frame(0, 0, 0, Ok(0)), Ok(Frame { slot: 0, start: 0, len: 0 }));
    assert_eq!(
        next_frame(1, 0, 8, Err(PlatformSensorError::SoilSensorError(SoilSensorError::I2cReadError))),
        Err(PlatformSensorError::SoilSensorError(SoilSensorError::I2cReadError))
    );
}

#[test]
fn registration_makes_the_sender_the_observer() {
    let mut platform = node(Vec::new());
    assert_eq!(platform.observer(), None);
    assert_eq!(platform.on_timer(), TimerAction::Idle);

    let request = registration_request(1213);
    let out = platform.coap_server_event_loop(gateway(), &request).unwrap();
    assert_eq!((out.to, out.port), (gateway(), 1213));
    let packet = coap_lite::Packet::from_bytes(&out.bytes).unwrap();
    assert_eq!(packet.payload, b"\x01\x02\x03\x04\x05\x06fern");
    assert_eq!(platform.observer(), Some((gateway(), 1213)));
    assert_eq!(platform.on_timer(), TimerAction::Sample { to: gateway(), port: 1213 });
}

#[test]
fn second_registration_is_answered_as_the_first() {
    let mut platform = node(Vec::new());
    let request = registration_request(1213);
    let first = platform.coap_server_event_loop(gateway(), &request).unwrap();
    let observer = platform.observer();
    let second = platform.coap_server_event_loop(gateway(), &request).unwrap();
    assert_eq!((first.to, first.port, &first.bytes), (second.to, second.port, &second.bytes));
    assert_eq!(platform.observer(), observer);
}

#[test]
fn later_registration_moves_the_observer() {
    let mut platform = node(Vec::new());
    platform.coap_server_event_loop(gateway(), &registration_request(1213));
    let other = Ipv6Addr::from_segments([0xfd00, 0, 0, 0, 0, 0, 0, 0x77]);
    platform.coap_server_event_loop(other, &registration_request(1300));
    assert_eq!(platform.observer(), Some((other, 1300)));
}

#[test]
fn anything_else_is_answered_with_the_challenge() {
    let mut platform = node(Vec::new());
    let out = platform.coap_server_event_loop(gateway(), b"\xbe\xef").unwrap();
    assert_eq!((out.to, out.port), (gateway(), BOUND_PORT));
    assert_eq!(out.bytes, b"beefface authenticate!");
    assert_eq!(challenge_bytes(), b"beefface authenticate!");
    assert_eq!(platform.observer(), None);
    assert!(platform.coap_server_event_loop(gateway(), &[]).is_none());
}

#[test]
fn loop_that_has_ended_does_nothing() {
    let mut platform = node(Vec::new());
    platform.coap_server_event_loop(gateway(), &registration_request(1213));
    assert!(platform.is_running());
    assert_eq!(platform.exit_loop(), Esp32PlatformError::PlatformError);
    assert!(!platform.is_running());
    assert_eq!(platform.on_timer(), TimerAction::Idle);
    assert!(platform.coap_server_event_loop(gateway(), &registration_request(1214)).is_none());
    assert_eq!(platform.observer(), Some((gateway(), 1213)));
}

#[test]
fn sensors_are_attached_to_their_slots() {
    let mut platform: Esp32Platform<Canned> = Esp32Platform::with_slots([1, 2, 3, 4, 5, 6], b"fern".to_vec());
    let mut buffer = [0u8; 32];
    assert!(platform.sensor_read(&mut buffer).unwrap().is_empty());
    assert!(platform.attach(HUM_IDX, Canned::writing(b"gas").unwrap()));
    assert!(platform.attach(SOIL_IDX, Canned::writing(b"soil").unwrap()));
    assert!(!platform.attach(MAX_SENSORS, Canned::writing(b"none").unwrap()));
    assert_eq!(
        platform.sensor_read(&mut buffer).unwrap(),
        vec![Frame { slot: SOIL_IDX, start: 0, len: 4 }, Frame { slot: HUM_IDX, start: 4, len: 3 }]
    );
    assert_eq!(&buffer[..7], b"soilgas");
    // a sensor takes the place of the one that sat in its slot
    assert!(platform.attach(SOIL_IDX, Canned::writing(b"dirt!").unwrap()));
    assert_eq!(
        platform.sensor_read(&mut buffer).unwrap(),
        vec![Frame { slot: SOIL_IDX, start: 0, len: 5 }, Frame { slot: HUM_IDX, start: 5, len: 3 }]
    );
}

#[test]
fn detachment_ends_the_loop_and_asks_for_the_reset() {
    let mut platform = node(Vec::new());
    platform.coap_server_event_loop(gateway(), &registration_request(1213));
    assert_eq!(platform.on_network_change(NetworkChange::Other), Recovery::Nothing);
    assert_eq!(platform.on_network_change(NetworkChange::RlocAdded), Recovery::RegisterService);
    assert!(platform.is_running());
    assert_eq!(platform.on_network_change(NetworkChange::RlocRemoved), Recovery::Reset);
    assert!(!platform.is_running());
    assert_eq!(platform.on_timer(), TimerAction::Idle);
    assert_eq!(platform.on_network_change(NetworkChange::RlocAdded), Recovery::RegisterService);
    assert!(!platform.is_running());
}

#[test]
fn every_attached_sensor_has_its_record() {
    let mut platform: Esp32Platform<Canned> = Esp32Platform::with_slots([0; 6], Vec::new());
    for slot in [OTHER_IDX, LIGHT_IDX_1, SOIL_IDX] {
        assert!(platform.attach(slot, Canned::writing(&[slot as u8; 3]).unwrap()));
    }
    let mut buffer = [0xeeu8; 16];
    let frames = platform.sensor_read(&mut buffer).unwrap();
    assert_eq!(frames.iter().map(|f| f.slot).collect::<Vec<_>>(), vec![SOIL_IDX, LIGHT_IDX_1, OTHER_IDX]);
    assert_eq!(frames.iter().map(|f| (f.start, f.len)).collect::<Vec<_>>(), vec![(0, 3), (3, 3), (6, 3)]);
    assert_eq!(&buffer[..10], &[0, 0, 0, 1, 1, 1, 4, 4, 4, 0xee]);
}

#[test]
fn failed_send_or_sensor_ends_the_loop() {
    let mut platform = node(Vec::new());
    assert_eq!(platform.after_send(true), None);
    assert!(platform.is_running());
    let frames = vec![Frame { slot: 0, start: 0, len: 2 }];
    assert_eq!(platform.after_read(Ok(frames.clone())), Ok(frames));
    assert!(platform.is_running());
    assert_eq!(platform.after_send(false), Some(Esp32PlatformError::PlatformError));
    assert!(!platform.is_running());

    let mut platform = node(Vec::new());
    assert_eq!(
        platform.after_read(Err(PlatformSensorError::Other)),
        Err(Esp32PlatformError::SensorError)
    );
    assert!(!platform.is_running());
    assert_eq!(platform.after_send(true), None);
    assert!(!platform.is_running());
}
