//! The registry's error values. Room-level failures name the device that was
//! missing or duplicated; home-level failures either name the room that was
//! missing or duplicated, or wrap the room-level failure they surfaced.

use vstd::prelude::*;
use vstd::string::StringExecFns;

verus! {

/// A failure of a room-level operation.
#[derive(Debug)]
pub enum RoomErrors {
    DeviceNameExists(String),
    DeviceNameDoesNotExist(String),
}

/// Model of a room-level failure.
pub enum RoomErrorsView {
    DeviceNameExists(Seq<char>),
    DeviceNameDoesNotExist(Seq<char>),
}

impl View for RoomErrors {
    type V = RoomErrorsView;

    open spec fn view(&self) -> RoomErrorsView {
        match self {
            RoomErrors::DeviceNameExists(n) => RoomErrorsView::DeviceNameExists(n@),
            RoomErrors::DeviceNameDoesNotExist(n) => RoomErrorsView::DeviceNameDoesNotExist(n@),
        }
    }
}

/// The message a room-level failure renders.
pub open spec fn room_error_text(e: RoomErrorsView) -> Seq<char> {
    match e {
        RoomErrorsView::DeviceNameExists(n) => "Device with name "@ + n + " already exists!"@,
        RoomErrorsView::DeviceNameDoesNotExist(n) => "Device with name "@ + n + " does not exist"@,
    }
}

impl RoomErrors {
    /// The failure as a human-readable line.
    pub fn message(&self) -> (r: String)
        ensures
            r@ == room_error_text(self@),
    {
        let mut out = "Device with name ".to_owned();
        match self {
            RoomErrors::DeviceNameExists(n) => {
                out.append(n.as_str());
                out.append(" already exists!");
            },
            RoomErrors::DeviceNameDoesNotExist(n) => {
                out.append(n.as_str());
                out.append(" does not exist");
            },
        }
        out
    }
}

/// A failure of a home-level operation: the room lookup failed, or the
/// operation failed inside the room it reached.
#[derive(Debug)]
pub enum HomeErrors {
    RoomNameExists(String),
    RoomNameDoesNotExist(String),
    InternalError(RoomErrors),
}

/// Model of a home-level failure.
pub enum HomeErrorsView {
    RoomNameExists(Seq<char>),
    RoomNameDoesNotExist(Seq<char>),
    InternalError(RoomErrorsView),
}

impl View for HomeErrors {
    type V = HomeErrorsView;

    open spec fn view(&self) -> HomeErrorsView {
        match self {
            HomeErrors::RoomNameExists(n) => HomeErrorsView::RoomNameExists(n@),
            HomeErrors::RoomNameDoesNotExist(n) => HomeErrorsView::RoomNameDoesNotExist(n@),
            HomeErrors::InternalError(e) => HomeErrorsView::InternalError(e@),
        }
    }
}

/// The message a home-level failure renders; a wrapped room-level failure
/// keeps its own message.
pub open spec fn home_error_text(e: HomeErrorsView) -> Seq<char> {
    match e {
        HomeErrorsView::RoomNameExists(n) => "Room with name "@ + n + " already exists!"@,
        HomeErrorsView::RoomNameDoesNotExist(n) => "Room with name "@ + n + " does not exist!"@,
        HomeErrorsView::InternalError(inner) => room_error_text(inner),
    }
}

impl HomeErrors {
    /// The failure as a human-readable line.
    pub fn message(&self) -> (r: String)
        ensures
            r@ == home_error_text(self@),
    {
        match self {
            HomeErrors::RoomNameExists(n) => {
                let mut out = "Room with name ".to_owned();
                out.append(n.as_str());
                out.append(" already exists!");
                out
            },
            HomeErrors::RoomNameDoesNotExist(n) => {
                let mut out = "Room with name ".to_owned();
                out.append(n.as_str());
                out.append(" does not exist!");
                out
            },
            HomeErrors::InternalError(inner) => inner.message(),
        }
    }
}

impl From<RoomErrors> for HomeErrors {
    /// A room-level failure surfaces at the home level as a wrapped error.
    fn from(value: RoomErrors) -> (r: HomeErrors) {
        HomeErrors::InternalError(value)
    }
}

impl vstd::std_specs::convert::FromSpecImpl<RoomErrors> for HomeErrors {
    open spec fn obeys_from_spec() -> bool {
        true
    }

    open spec fn from_spec(v: RoomErrors) -> HomeErrors {
        HomeErrors::InternalError(v)
    }
}

} // verus!
