use smart_home::standalone::{SmartSocket, Thermometer, WorkingState};
use smart_home::text::{i32_to_string, u32_to_string};
use smart_home::{Device, DeviceState, Socket};

#[test]
fn smart_socket_measures_only_while_on() {
    let mut socket = SmartSocket::new("kitchen socket");
    assert_eq!(socket.description, Some("kitchen socket".to_string()));
    assert_eq!(socket.get_state(), WorkingState::Off);
    assert_eq!(socket.get_power(), None);
    socket.turn_on();
    assert_eq!(socket.get_state(), WorkingState::On);
    assert_eq!(socket.get_power(), Some(10));
    socket.turn_off();
    assert_eq!(socket.get_state(), WorkingState::Off);
    assert_eq!(socket.get_power(), None);
}

#[test]
fn smart_socket_default_has_no_description() {
    let socket = SmartSocket::default();
    assert_eq!(None, socket.description);
    assert_eq!(socket.get_state(), WorkingState::Off);
}

#[test]
fn standalone_thermometer_measures() {
    let mut thermometer = Thermometer::default();
    assert_eq!(thermometer.calculate_temperature(), 22);
}

#[test]
fn registry_socket_switches_state() {
    let mut device = Device::Socket(Socket::new("s1"));
    assert_eq!(device.name(), "s1");
    assert_eq!(device.state(), DeviceState::Off);
    device.turn_on();
    assert_eq!(device.state(), DeviceState::On);
    device.turn_on();
    assert_eq!(device.state(), DeviceState::On);
    device.turn_off();
    assert_eq!(device.state(), DeviceState::Off);
}

#[test]
fn numbers_render_in_decimal() {
    assert_eq!(u32_to_string(0), "0");
    assert_eq!(u32_to_string(7), "7");
    assert_eq!(u32_to_string(100), "100");
    assert_eq!(u32_to_string(4294967295), "4294967295");
    assert_eq!(i32_to_string(0), "0");
    assert_eq!(i32_to_string(22), "22");
    assert_eq!(i32_to_string(-30), "-30");
    assert_eq!(i32_to_string(-2147483648), "-2147483648");
}
