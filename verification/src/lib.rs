//! A small home-automation registry: homes own rooms, rooms own devices
//! (switchable sockets and thermometers), and a line-based protocol lets a
//! server mutate and query the registry. Every operation's behaviour is
//! stated against a mathematical model of the registry and proved.

pub mod device;
pub mod errors;
pub mod home;
pub mod http;
pub mod request;
pub mod response;
pub mod room;
pub mod server;
pub mod standalone;
pub mod text;

pub use device::Device;
pub use device::DeviceInfo;
pub use device::Socket;
pub use device::Thermometer;
pub use errors::HomeErrors;
pub use errors::RoomErrors;
pub use home::Home;
pub use room::Room;
pub use server::Server;

use vstd::prelude::*;

verus! {

/// States a switchable device can be in; a fresh device starts `Off`.
#[derive(Clone, Copy, Debug, PartialEq, Eq, Structural)]
pub enum DeviceState {
    On,
    Off,
}

} // verus!
