use plant_minder::addr::{Ipv6Addr, SocketAddrV6};
use plant_minder::atsamd10::{ATSAMD10, DEFAULT_ADDRESS, DEFAULT_MOISTURE_DELAY, DEFAULT_TEMP_DELAY};
use plant_minder::minder::{
    extend_window, handle_app_cmd, handle_node_state_change, same_eui, select_from, AppCmd, Node,
    PlantMinder, MAX_WINDOW, NUM_TABS, WINDOW_STEP,
};
use plant_minder::node::{ErrorState, NodeSensorReading, NodeState, NodeStatus};
use plant_minder::sensor::{SensorReading, Soil};

fn addr(last: u16) -> Ipv6Addr {
    Ipv6Addr::from_segments([0xfd00, 0, 0, 0, 0, 0, 0, last])
}

fn reading(from: u16, moisture: u16) -> NodeSensorReading {
    NodeSensorReading {
        addr: SocketAddrV6 { ip: addr(from), port: 50000 },
        data: SensorReading { soil: Soil { moisture, ..Soil::default() }, ..SensorReading::default() },
    }
}

fn moistures(node: &Node) -> Vec<u16> {
    node.history.iter().map(|r| r.data.soil.moisture).collect()
}

#[test]
fn registration_enters_a_node_that_is_online() {
    let mut book = PlantMinder::new();
    assert!(book.running());
    assert_eq!((book.tab(), book.row(), book.node_count()), (0, 0, 0));
    book.node_registration(([0xaa; 6], addr(1), "fern".to_string()));
    assert_eq!(book.node_count(), 1);
    assert_eq!(book.addr_of(&[0xaa; 6]), Some(addr(1)));
    assert_eq!(book.addr_of(&[0xbb; 6]), None);
    let node = book.node_at(addr(1)).unwrap();
    assert_eq!((node.eui, node.name.as_str(), node.state), ([0xaa; 6], "fern", NodeState::Online));
    assert!(node.history.is_empty());
    assert!(book.node_at(addr(2)).is_none());
}

#[test]
fn rebinding_moves_the_node_and_keeps_its_readings() {
    let mut book = PlantMinder::new();
    book.node_registration(([0xaa; 6], addr(1), "fern".to_string()));
    book.node_registration(([0xbb; 6], addr(5), "ivy".to_string()));
    book.new_data(addr(1), &vec![reading(1, 820), reading(1, 810)]);

    book.node_registration(([0xaa; 6], addr(2), "fern".to_string()));
    assert_eq!(book.node_count(), 2);
    assert_eq!(book.addr_of(&[0xaa; 6]), Some(addr(2)));
    assert!(book.node_at(addr(1)).is_none());
    assert_eq!(moistures(book.node_at(addr(2)).unwrap()), vec![820, 810]);
    assert_eq!(book.addr_of(&[0xbb; 6]), Some(addr(5)));
    // the node that registered last stands last
    assert_eq!(book.nodes().iter().map(|n| n.eui).collect::<Vec<_>>(), vec![[0xbb; 6], [0xaa; 6]]);
}

#[test]
fn rebinding_without_readings_moves_the_node_too() {
    let mut book = PlantMinder::new();
    book.node_registration(([0xaa; 6], addr(1), "fern".to_string()));
    book.node_registration(([0xaa; 6], addr(2), "fern".to_string()));
    assert_eq!(book.node_count(), 1);
    assert!(book.node_at(addr(1)).is_none());
    assert_eq!(book.addr_of(&[0xaa; 6]), Some(addr(2)));
}

#[test]
fn registration_at_a_taken_address_replaces_the_node_there() {
    let mut book = PlantMinder::new();
    book.node_registration(([0xaa; 6], addr(1), "fern".to_string()));
    book.node_registration(([0xbb; 6], addr(2), "ivy".to_string()));
    book.new_data(addr(2), &vec![reading(2, 1)]);
    book.node_registration(([0xaa; 6], addr(2), "fern".to_string()));
    assert_eq!(book.node_count(), 1);
    assert_eq!(book.addr_of(&[0xbb; 6]), None);
    let node = book.node_at(addr(2)).unwrap();
    assert_eq!(node.eui, [0xaa; 6]);
    assert!(node.history.is_empty());
}

#[test]
fn readings_are_sorted_by_source() {
    let mut book = PlantMinder::new();
    book.node_registration(([0xaa; 6], addr(1), "fern".to_string()));
    book.node_registration(([0xbb; 6], addr(2), "ivy".to_string()));
    let buffer = vec![reading(1, 10), reading(2, 20), reading(3, 30), reading(1, 11), reading(2, 21)];
    book.recv_many(&buffer);
    assert_eq!(moistures(book.node_at(addr(1)).unwrap()), vec![10, 11]);
    assert_eq!(moistures(book.node_at(addr(2)).unwrap()), vec![20, 21]);
    assert_eq!(book.node_count(), 2);
    book.recv_many(&Vec::new());
    book.new_data(addr(9), &buffer);
    assert_eq!(moistures(book.node_at(addr(1)).unwrap()), vec![10, 11]);
    assert_eq!(select_from(&buffer, addr(2)), vec![reading(2, 20), reading(2, 21)]);
    assert!(select_from(&buffer, addr(4)).is_empty());
}

#[test]
fn full_window_drops_its_oldest_readings() {
    assert_eq!((MAX_WINDOW, WINDOW_STEP), (50, 5));
    let held: Vec<NodeSensorReading> = (0..48).map(|m| reading(1, m)).collect();
    let one = extend_window(held.clone(), &vec![reading(1, 100)]);
    assert_eq!(one.len(), 49);
    assert_eq!(one[0].data.soil.moisture, 0);
    let two = extend_window(held.clone(), &vec![reading(1, 100), reading(1, 101)]);
    assert_eq!(two.len(), 45);
    assert_eq!(two[0].data.soil.moisture, 5);
    assert_eq!(two[44].data.soil.moisture, 101);
    assert_eq!(two[42].data.soil.moisture, 47);

    // fewer than five held: all of them leave
    let few: Vec<NodeSensorReading> = (0..3).map(|m| reading(1, m)).collect();
    let many: Vec<NodeSensorReading> = (0..60).map(|m| reading(1, 1000 + m)).collect();
    let out = extend_window(few, &many);
    assert_eq!(out.len(), 60);
    assert_eq!(out[0].data.soil.moisture, 1000);
    assert!(extend_window(Vec::new(), &Vec::new()).is_empty());
}

#[test]
fn status_changes() {
    let mut book = PlantMinder::new();
    handle_node_state_change(NodeStatus::Registration(([0xaa; 6], addr(1), "fern".to_string())), &mut book);
    assert_eq!(book.node_count(), 1);
    handle_node_state_change(
        NodeStatus::Termination((SocketAddrV6 { ip: addr(1), port: 1 }, ErrorState::Timeout)),
        &mut book,
    );
    assert_eq!(book.node_count(), 1);
    assert_eq!(book.node_at(addr(1)).unwrap().state, NodeState::Online);
}

#[test]
fn commands_move_through_views_and_rows() {
    let mut book = PlantMinder::new();
    assert_eq!(NUM_TABS, 5);
    for expected in [1, 2, 3, 4, 0, 1] {
        handle_app_cmd(AppCmd::Next, &mut book);
        assert_eq!(book.tab(), expected);
    }
    for expected in [0, 4, 3] {
        handle_app_cmd(AppCmd::Back, &mut book);
        assert_eq!(book.tab(), expected);
    }
    handle_app_cmd(AppCmd::Up, &mut book);
    assert_eq!(book.row(), 0);
    book.node_registration(([1; 6], addr(1), "a".to_string()));
    book.node_registration(([2; 6], addr(2), "b".to_string()));
    book.node_registration(([3; 6], addr(3), "c".to_string()));
    handle_app_cmd(AppCmd::Up, &mut book);
    assert_eq!(book.row(), 2);
    handle_app_cmd(AppCmd::Up, &mut book);
    assert_eq!(book.row(), 1);
    handle_app_cmd(AppCmd::Down, &mut book);
    handle_app_cmd(AppCmd::Down, &mut book);
    assert_eq!(book.row(), 3);
    handle_app_cmd(AppCmd::Invalid, &mut book);
    handle_app_cmd(AppCmd::Error, &mut book);
    assert_eq!((book.tab(), book.row(), book.running()), (3, 3, true));
    handle_app_cmd(AppCmd::Quit, &mut book);
    assert!(!book.running());
    assert_eq!((book.tab(), book.row(), book.node_count()), (3, 3, 3));
    book.quit();
    assert!(!book.running());
}

#[test]
fn default_node_is_unknown() {
    let node = Node::default();
    assert_eq!(node.addr.to_bits(), 0);
    assert_eq!(node.eui, [0; 6]);
    assert!(node.name.is_empty());
    assert!(node.history.is_empty());
    assert_eq!(node.state, NodeState::Unknown);
    assert!(same_eui(&[1, 2, 3, 4, 5, 6], &[1, 2, 3, 4, 5, 6]));
    assert!(!same_eui(&[1, 2, 3, 4, 5, 6], &[1, 2, 3, 4, 5, 7]));
    assert!(!same_eui(&[0, 2, 3, 4, 5, 6], &[1, 2, 3, 4, 5, 6]));
}

#[test]
fn soil_sensor_commands_and_answers() {
    let sensor = ATSAMD10::new(DEFAULT_ADDRESS, DEFAULT_TEMP_DELAY, DEFAULT_MOISTURE_DELAY);
    assert_eq!(sensor, ATSAMD10 { temp_delay: 2000, moisture_delay: 5000, address: 0x36 });
    assert_eq!(ATSAMD10::read_moisture_command(), [0x0f, 0x10]);
    assert_eq!(ATSAMD10::read_temp_command(), [0x00, 0x04]);
    assert_eq!(ATSAMD10::moisture([0x03, 0x34]), 820);
    assert_eq!(ATSAMD10::moisture([0xff, 0xff]), u16::from_be_bytes([0xff, 0xff]));
    assert_eq!(ATSAMD10::temperature([0x00, 0x16, 0x80, 0x00]), 0x0016_8000);
    assert_eq!(ATSAMD10::temperature([0xff, 0xfe, 0x00, 0x01]) as i32, i32::from_be_bytes([0xff, 0xfe, 0x00, 0x01]));
    // 22.5 degrees Celsius are 72.5 degrees Fahrenheit
    let celsius = ATSAMD10::temperature([0x00, 0x16, 0x80, 0x00]) as i32 as f32 / 65536.0;
    assert_eq!(celsius * 1.8 + 32.0, 72.5);
}
