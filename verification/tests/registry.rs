use smart_home::{Device, DeviceInfo, Home, Room, Socket, Thermometer};

#[test]
fn it_works() {
    let home_name = "home";
    let room1_name = "room1";
    let room2_name = "room2";
    let socket1_name = "socket1";
    let thermo1_name = "thermo1";

    let socket1 = Socket::new(socket1_name);
    let thermo1 = Thermometer::new(thermo1_name);
    let mut home = Home::new(home_name);
    assert!(home.add_room(room1_name).is_ok());
    assert!(home.add_room(room1_name).is_err());
    assert!(home.add_device(room1_name, Device::Socket(socket1)).is_ok());
    assert!(home.add_device(room1_name, Device::Thermometer(thermo1)).is_ok());
    let failed_device = Socket::new(socket1_name);
    assert!(home.add_device(room1_name, Device::Socket(failed_device)).is_err());

    assert!(home.add_room(room2_name).is_ok());
    let socket2 = Socket::new(socket1_name);
    let thermo2 = Thermometer::new(thermo1_name);
    assert!(home.add_device(room2_name, Device::Socket(socket2)).is_ok());
    assert!(home.add_device(room2_name, Device::Thermometer(thermo2)).is_ok());

    println!("Home report: {}", home.get_home_report());
    println!(
        "Vec of devices in room '{}': {:?}",
        room1_name,
        home.get_devices_in_room(room1_name).unwrap()
    );
    println!("Rooms in house: {:?}", home.get_room_names());

    let mut dev_info = DeviceInfo::new(socket1_name, room1_name);
    let report = home.get_device_report(&dev_info);
    assert!(report.is_ok());
    println!(
        "Report from room '{}', device '{}': {}",
        room1_name,
        socket1_name,
        report.unwrap()
    );

    assert!(home.turn_on(&dev_info).is_ok());
    let report = home.get_device_report(&dev_info);
    assert!(report.is_ok());
    println!(
        "Report from room '{}', turned on device '{}': {}",
        room1_name,
        socket1_name,
        report.unwrap()
    );

    dev_info.device_name = "failed".to_string();
    assert!(home.get_device_report(&dev_info).is_err());
}

#[test]
fn room_add_device() {
    let mut room = Room::new("room");
    let device = Socket::new("dev");
    assert!(room.add_device(Device::Socket(device)).is_ok());
    assert_eq!(room.get_devices().len(), 1);
}

#[test]
fn add_device_with_non_unique_name() {
    let mut room = Room::new("room");
    let device = Socket::new("dev");
    assert!(room.add_device(Device::Socket(device)).is_ok());
    let device_duplicate = Socket::new("dev");
    assert!(room.add_device(Device::Socket(device_duplicate)).is_err());
}

#[test]
fn room_remove_device() {
    let mut room = Room::new("room");
    let device = Socket::new("dev");
    assert!(room.add_device(Device::Socket(device)).is_ok());
    assert!(room.remove_device("dev").is_ok());
    assert!(room.get_devices().is_empty());
}

#[test]
fn room_remove_non_existing_device() {
    let mut room = Room::new("room");
    assert!(room.remove_device("dev").is_err());
}

#[test]
fn room_turn_on_off_device() {
    let mut room = Room::new("room");
    let device = Socket::new("dev");
    room.add_device(Device::Socket(device)).unwrap();
    assert!(room.turn_on("dev").is_ok());
    assert!(room.turn_off("dev").is_ok());
}

#[test]
fn room_turn_on_off_non_existing_device() {
    let mut room = Room::new("room");
    assert!(room.turn_on("dev").is_err());
    assert!(room.turn_off("dev").is_err());
}

#[test]
fn add_room() {
    let mut home = Home::new("home");
    assert!(home.add_room("room").is_ok());
    assert_eq!(home.get_room_names().len(), 1);
}

#[test]
fn add_non_unique_room() {
    let mut home = Home::new("home");
    assert!(home.add_room("room").is_ok());
    assert!(home.add_room("room").is_err());
    assert_eq!(home.get_room_names().len(), 1);
}

#[test]
fn remove_room() {
    let mut home = Home::new("home");
    assert!(home.add_room("room").is_ok());
    assert_eq!(home.get_room_names().len(), 1);
    assert!(home.remove_room("room").is_ok());
    assert_eq!(home.get_room_names().len(), 0);
}

#[test]
fn remove_non_existing_room() {
    let mut home = Home::new("home");
    assert_eq!(home.get_room_names().len(), 0);
    assert!(home.remove_room("room").is_err());
}

#[test]
fn home_test_add_device() {
    let mut home = Home::new("home");
    assert!(home.add_room("room").is_ok());
    let device = Socket::new("dev");
    assert!(home.add_device("room", Device::Socket(device)).is_ok());
    let devices_in_room = home.get_devices_in_room("room");
    assert!(devices_in_room.is_ok());
    let dev_vec = devices_in_room.unwrap();
    assert_eq!(dev_vec.len(), 1);
    assert_eq!(dev_vec[0], "dev".to_string());
}

#[test]
fn add_device_with_existing_name() {
    let mut home = Home::new("home");
    assert!(home.add_room("room").is_ok());
    let device = Socket::new("dev");
    assert!(home.add_device("room", Device::Socket(device)).is_ok());
    let device_duplicate = Socket::new("dev");
    assert!(home.add_device("room", Device::Socket(device_duplicate)).is_err());
}

#[test]
fn home_test_remove_device() {
    let mut home = Home::new("home");
    assert!(home.add_room("room").is_ok());
    let device = Socket::new("dev");
    assert!(home.add_device("room", Device::Socket(device)).is_ok());
    let devices_in_room = home.get_devices_in_room("room");
    assert!(devices_in_room.is_ok());
    let dev_vec = devices_in_room.unwrap();
    assert_eq!(dev_vec.len(), 1);
    assert_eq!(dev_vec[0], format!("{}", "dev"));

    let device_info = DeviceInfo::new("dev", "room");
    assert!(home.remove_device(&device_info).is_ok());
    let devices_in_room = home.get_devices_in_room("room");
    assert!(devices_in_room.is_ok());
    let dev_vec = devices_in_room.unwrap();
    assert_eq!(dev_vec.len(), 0);
}

#[test]
fn home_test_remove_non_existing_device() {
    let mut home = Home::new("home");
    assert!(home.add_room("room").is_ok());
    let devices_in_room = home.get_devices_in_room("room");
    assert!(devices_in_room.is_ok());
    let dev_vec = devices_in_room.unwrap();
    assert_eq!(dev_vec.len(), 0);

    let device_info = DeviceInfo::new("dev", "room");
    assert!(home.remove_device(&device_info).is_err());
}

#[test]
fn home_test_turn_on_off_device() {
    let mut home = Home::new("home");
    assert!(home.add_room("room").is_ok());
    let device = Socket::new("dev");
    home.add_device("room", Device::Socket(device)).unwrap();

    let device_info = DeviceInfo::new("dev", "room");
    assert!(home.turn_on(&device_info).is_ok());
    assert!(home.turn_off(&device_info).is_ok());
}

#[test]
fn home_test_turn_on_off_non_existing_device() {
    let mut home = Home::new("home");
    assert!(home.add_room("room").is_ok());
    let device_info = DeviceInfo::new("dev", "room");
    assert!(home.turn_on(&device_info).is_err());
    assert!(home.turn_off(&device_info).is_err());
}

#[test]
fn removed_room_is_gone_for_every_operation() {
    let mut home = Home::new("home");
    home.add_room("room").unwrap();
    home.add_device("room", Device::Socket(Socket::new("dev"))).unwrap();
    assert!(home.remove_room("room").is_ok());

    let locator = DeviceInfo::new("dev", "room");
    assert!(home.remove_room("room").is_err());
    assert!(home.add_device("room", Device::Socket(Socket::new("dev"))).is_err());
    assert!(home.remove_device(&locator).is_err());
    assert!(home.turn_on(&locator).is_err());
    assert!(home.turn_off(&locator).is_err());
    assert!(home.get_device_report(&locator).is_err());
    assert!(home.get_devices_in_room("room").is_err());
}

#[test]
fn home_turn_on_twice_keeps_device_on() {
    let mut home = Home::new("home");
    home.add_room("room").unwrap();
    home.add_device("room", Device::Socket(Socket::new("dev"))).unwrap();
    let locator = DeviceInfo::new("dev", "room");
    assert!(home.turn_on(&locator).is_ok());
    assert!(home.turn_on(&locator).is_ok());
    let report = home.get_device_report(&locator).unwrap();
    assert!(report.starts_with("Socket name: dev\nstate: On\ncurrent power: "));
}
