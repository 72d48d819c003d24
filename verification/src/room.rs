//! A room: a named, ordered collection of devices, unique by name. All
//! operations key on the device name; insertion order is kept for reporting.

use crate::device::{
    device_report_ok, find_device_named, has_device_named, lemma_find_device_named,
    lemma_find_device_named_has, lemma_remove_named_props, remove_named, set_state_at, turn_named,
    unique_device_names, device_names, Device, DeviceView,
};
use crate::errors::{RoomErrors, RoomErrorsView};
use crate::text::str_eq;
use crate::DeviceState;
use vstd::prelude::*;
use vstd::std_specs::vec::vec_index_mut;
use vstd::string::{StrSliceExecFns, StringExecFns};

verus! {

/// Mathematical model of a room.
#[verifier::ext_equal]
pub struct RoomView {
    pub name: Seq<char>,
    pub devices: Seq<DeviceView>,
}

impl RoomView {
    /// The room's invariant: no two of its devices share a name.
    pub open spec fn wf(self) -> bool {
        unique_device_names(self.devices)
    }
}

/// What `Room::add_device` does: the room unchanged and a duplicate-name
/// error, or the device appended.
pub open spec fn room_add_device(r: RoomView, d: DeviceView) -> (RoomView, Result<
    (),
    RoomErrorsView,
>) {
    if has_device_named(r.devices, d.name) {
        (r, Err(RoomErrorsView::DeviceNameExists(d.name)))
    } else {
        (RoomView { devices: r.devices.push(d), ..r }, Ok(()))
    }
}

/// What `Room::remove_device` does: every device of that name removed, or the
/// room unchanged and a not-found error.
pub open spec fn room_remove_device(r: RoomView, name: Seq<char>) -> (RoomView, Result<
    (),
    RoomErrorsView,
>) {
    if has_device_named(r.devices, name) {
        (RoomView { devices: remove_named(r.devices, name), ..r }, Ok(()))
    } else {
        (r, Err(RoomErrorsView::DeviceNameDoesNotExist(name)))
    }
}

/// What `Room::turn_on` / `Room::turn_off` do: the named device set to the
/// given state, or the room unchanged and a not-found error.
pub open spec fn room_turn(r: RoomView, name: Seq<char>, st: DeviceState) -> (RoomView, Result<
    (),
    RoomErrorsView,
>) {
    if has_device_named(r.devices, name) {
        (RoomView { devices: turn_named(r.devices, name, st), ..r }, Ok(()))
    } else {
        (r, Err(RoomErrorsView::DeviceNameDoesNotExist(name)))
    }
}

/// The device `Room::get_device_report` reports on: the first of that name,
/// or a not-found error.
pub open spec fn room_report_target(r: RoomView, name: Seq<char>) -> Result<
    DeviceView,
    RoomErrorsView,
> {
    let i = find_device_named(r.devices, name, 0);
    if i < r.devices.len() {
        Ok(r.devices[i])
    } else {
        Err(RoomErrorsView::DeviceNameDoesNotExist(name))
    }
}

/// A room-level result with its error taken to the model level.
pub open spec fn room_result_view(r: Result<(), RoomErrors>) -> Result<(), RoomErrorsView> {
    match r {
        Ok(()) => Ok(()),
        Err(e) => Err(e@),
    }
}

/// All reports paired with the devices they describe.
pub open spec fn device_reports_ok(ds: Seq<DeviceView>, reps: Seq<Seq<char>>) -> bool {
    reps.len() == ds.len() && (forall|i: int|
        0 <= i < ds.len() ==> device_report_ok(ds[i], #[trigger] reps[i]))
}

/// The given lines concatenated, each followed by a line break.
pub open spec fn joined_lines(reps: Seq<Seq<char>>) -> Seq<char>
    decreases reps.len(),
{
    if reps.len() == 0 {
        Seq::empty()
    } else {
        reps[0] + "\n"@ + joined_lines(reps.drop_first())
    }
}

pub proof fn lemma_joined_lines_push(reps: Seq<Seq<char>>, x: Seq<char>)
    ensures
        joined_lines(reps.push(x)) =~= joined_lines(reps) + x + "\n"@,
    decreases reps.len(),
{
    if reps.len() == 0 {
        assert(reps.push(x).drop_first() =~= Seq::<Seq<char>>::empty());
        assert(joined_lines(Seq::<Seq<char>>::empty()) == Seq::<char>::empty());
    } else {
        assert(reps.push(x).drop_first() =~= reps.drop_first().push(x));
        lemma_joined_lines_push(reps.drop_first(), x);
    }
}

/// The framing `Room::get_report` puts around its devices' reports.
pub open spec fn room_report_text(name: Seq<char>, body: Seq<char>) -> Seq<char> {
    "Room name: "@ + name + "\n\tdevices: [\n"@ + body + "]\n"@
}

/// What `Room::get_report` may return: the room framing around one valid
/// report per device, in insertion order.
pub open spec fn room_report_ok(r: RoomView, s: Seq<char>) -> bool {
    exists|reps: Seq<Seq<char>>|
        device_reports_ok(r.devices, reps) && s == room_report_text(r.name, joined_lines(reps))
}

/// A named, ordered collection of devices; the owner of the devices in it.
#[derive(Debug)]
pub struct Room {
    name: String,
    devices: Vec<Device>,
}

impl View for Room {
    type V = RoomView;

    closed spec fn view(&self) -> RoomView {
        RoomView { name: self.name@, devices: self.devices@.map_values(|d: Device| d@) }
    }
}

impl Room {
    /// A fresh room of the given name, with no devices; well-formed.
    pub fn new(name: &str) -> (r: Self)
        ensures
            r@.name == name@,
            r@.devices =~= Seq::<DeviceView>::empty(),
            r@.wf(),
    {
        let r = Room { name: name.to_owned(), devices: Vec::new() };
        proof {
            assert(r@.devices =~= Seq::<DeviceView>::empty());
        }
        r
    }

    /// The room's name, its identity within a home.
    pub fn name(&self) -> (r: &str)
        ensures
            r@ == self@.name,
    {
        self.name.as_str()
    }

    /// Index of the first device with this name, if one is there.
    fn find_index(&self, name: &str) -> (r: Option<usize>)
        ensures
            ({
                let fi = find_device_named(self@.devices, name@, 0);
                match r {
                    Some(i) => fi == i as int && i < self@.devices.len(),
                    None => fi == self@.devices.len() as int,
                }
            }),
    {
        let ghost devs = self@.devices;
        let mut i: usize = 0;
        while i < self.devices.len()
            invariant
                0 <= i <= devs.len(),
                devs == self@.devices,
                devs.len() == self.devices@.len(),
                find_device_named(devs, name@, 0) == find_device_named(devs, name@, i as int),
            decreases self.devices.len() - i,
        {
            if str_eq(self.devices[i].name(), name) {
                return Some(i);
            }
            i = i + 1;
        }
        None
    }

    /// Takes ownership of the device if its name is not yet used in this
    /// room; fails with the duplicate-name error and changes nothing
    /// otherwise. Well-formedness is preserved.
    pub fn add_device(&mut self, device: Device) -> (r: Result<(), RoomErrors>)
        ensures
            final(self)@ == room_add_device(old(self)@, device@).0,
            room_result_view(r) == room_add_device(old(self)@, device@).1,
            old(self)@.wf() ==> final(self)@.wf(),
    {
        proof {
            lemma_find_device_named(old(self)@.devices, device@.name, 0);
            lemma_find_device_named_has(old(self)@.devices, device@.name);
        }
        match self.find_index(device.name()) {
            Some(_) => Err(RoomErrors::DeviceNameExists(device.name().to_owned())),
            None => {
                self.devices.push(device);
                proof {
                    assert(self@.devices =~= old(self)@.devices.push(device@));
                    if old(self)@.wf() {
                        let post = old(self)@.devices.push(device@);
                        assert forall|i: int, j: int| 0 <= i < j < post.len() implies post[i].name
                            != post[j].name by {
                            if j == post.len() - 1 {
                                assert(post[i] == old(self)@.devices[i]);
                            }
                        }
                    }
                }
                Ok(())
            },
        }
    }

    /// Removes the device of this name and drops it; fails with the
    /// not-found error and changes nothing if no device has the name.
    /// Well-formedness is preserved.
    pub fn remove_device(&mut self, device_name: &str) -> (r: Result<(), RoomErrors>)
        ensures
            final(self)@ == room_remove_device(old(self)@, device_name@).0,
            room_result_view(r) == room_remove_device(old(self)@, device_name@).1,
            old(self)@.wf() ==> final(self)@.wf(),
    {
        proof {
            lemma_find_device_named_has(old(self)@.devices, device_name@);
            lemma_remove_named_props(old(self)@.devices, device_name@);
        }
        match self.find_index(device_name) {
            None => Err(RoomErrors::DeviceNameDoesNotExist(device_name.to_owned())),
            Some(_) => {
                let ghost orig = old(self)@.devices;
                let ghost room_name = old(self)@.name;
                let mut kept: Vec<Device> = Vec::new();
                proof {
                    assert(kept@.map_values(|d: Device| d@) =~= Seq::<DeviceView>::empty());
                }
                while self.devices.len() > 0
                    invariant
                        self@.name == room_name,
                        remove_named(orig, device_name@) =~= kept@.map_values(|d: Device| d@)
                            + remove_named(
                            self.devices@.map_values(|d: Device| d@),
                            device_name@,
                        ),
                    decreases self.devices.len(),
                {
                    let ghost pre = self.devices@.map_values(|d: Device| d@);
                    let d = self.devices.remove(0);
                    proof {
                        assert(self.devices@.map_values(|d: Device| d@) =~= pre.drop_first());
                    }
                    if !str_eq(d.name(), device_name) {
                        let ghost kept_pre = kept@.map_values(|d: Device| d@);
                        kept.push(d);
                        proof {
                            assert(kept@.map_values(|d: Device| d@) =~= kept_pre.push(d@));
                            assert(kept_pre.push(d@) + remove_named(
                                pre.drop_first(),
                                device_name@,
                            ) =~= kept_pre + (seq![d@] + remove_named(
                                pre.drop_first(),
                                device_name@,
                            )));
                        }
                    }
                }
                proof {
                    assert(remove_named(
                        self.devices@.map_values(|d: Device| d@),
                        device_name@,
                    ) =~= Seq::<DeviceView>::empty());
                    assert(remove_named(orig, device_name@) =~= kept@.map_values(|d: Device| d@));
                }
                self.devices = kept;
                proof {
                    assert(self@ =~= room_remove_device(old(self)@, device_name@).0);
                }
                Ok(())
            },
        }
    }

    /// One valid report per device, in insertion order, inside the room
    /// framing.
    pub fn get_report(&self) -> (r: String)
        ensures
            room_report_ok(self@, r@),
    {
        let ghost mut reps: Seq<Seq<char>> = Seq::empty();
        let mut body = String::new();
        let mut i: usize = 0;
        while i < self.devices.len()
            invariant
                0 <= i <= self.devices@.len(),
                reps.len() == i,
                forall|j: int|
                    0 <= j < i ==> device_report_ok(self@.devices[j], #[trigger] reps[j]),
                body@ == joined_lines(reps),
            decreases self.devices.len() - i,
        {
            let rep = self.devices[i].get_report();
            proof {
                lemma_joined_lines_push(reps, rep@);
            }
            body.append(rep.as_str());
            body.append("\n");
            proof {
                reps = reps.push(rep@);
                assert(body@ =~= joined_lines(reps));
            }
            i = i + 1;
        }
        let mut out = "Room name: ".to_owned();
        out.append(self.name.as_str());
        out.append("\n\tdevices: [\n");
        out.append(body.as_str());
        out.append("]\n");
        proof {
            assert(device_reports_ok(self@.devices, reps));
            assert(out@ =~= room_report_text(self@.name, joined_lines(reps)));
        }
        out
    }

    /// The report of the device with this name, or the not-found error.
    pub fn get_device_report(&self, device_name: &str) -> (r: Result<String, RoomErrors>)
        ensures
            ({
                match room_report_target(self@, device_name@) {
                    Ok(d) => r matches Ok(s) && device_report_ok(d, s@),
                    Err(e) => r matches Err(e2) && e2@ == e,
                }
            }),
    {
        proof {
            lemma_find_device_named(self@.devices, device_name@, 0);
        }
        match self.find_index(device_name) {
            Some(i) => Ok(self.devices[i].get_report()),
            None => Err(RoomErrors::DeviceNameDoesNotExist(device_name.to_owned())),
        }
    }

    /// The device names, in insertion order.
    pub fn get_devices(&self) -> (r: Vec<String>)
        ensures
            r.deep_view() == device_names(self@.devices),
    {
        let mut out: Vec<String> = Vec::new();
        let mut i: usize = 0;
        while i < self.devices.len()
            invariant
                0 <= i <= self.devices@.len(),
                out@.len() == i,
                forall|j: int| 0 <= j < i ==> out@[j]@ == self@.devices[j].name,
            decreases self.devices.len() - i,
        {
            out.push(self.devices[i].name().to_owned());
            i = i + 1;
        }
        proof {
            assert(out.deep_view() =~= device_names(self@.devices));
        }
        out
    }

    /// Switches the named device on; fails with the not-found error and
    /// changes nothing if no device has the name.
    pub fn turn_on(&mut self, device_name: &str) -> (r: Result<(), RoomErrors>)
        ensures
            final(self)@ == room_turn(old(self)@, device_name@, DeviceState::On).0,
            room_result_view(r) == room_turn(old(self)@, device_name@, DeviceState::On).1,
            old(self)@.wf() ==> final(self)@.wf(),
    {
        self.turn(device_name, true)
    }

    /// Switches the named device off; fails with the not-found error and
    /// changes nothing if no device has the name.
    pub fn turn_off(&mut self, device_name: &str) -> (r: Result<(), RoomErrors>)
        ensures
            final(self)@ == room_turn(old(self)@, device_name@, DeviceState::Off).0,
            room_result_view(r) == room_turn(old(self)@, device_name@, DeviceState::Off).1,
            old(self)@.wf() ==> final(self)@.wf(),
    {
        self.turn(device_name, false)
    }

    fn turn(&mut self, device_name: &str, on: bool) -> (r: Result<(), RoomErrors>)
        ensures
            ({
                let st = if on {
                    DeviceState::On
                } else {
                    DeviceState::Off
                };
                &&& final(self)@ == room_turn(old(self)@, device_name@, st).0
                &&& room_result_view(r) == room_turn(old(self)@, device_name@, st).1
                &&& (old(self)@.wf() ==> final(self)@.wf())
            }),
    {
        proof {
            lemma_find_device_named(old(self)@.devices, device_name@, 0);
            lemma_find_device_named_has(old(self)@.devices, device_name@);
        }
        match self.find_index(device_name) {
            None => Err(RoomErrors::DeviceNameDoesNotExist(device_name.to_owned())),
            Some(i) => {
                let ghost devs = old(self)@.devices;
                let d = vec_index_mut(&mut self.devices, i);
                if on {
                    d.turn_on();
                } else {
                    d.turn_off();
                }
                proof {
                    let st = if on {
                        DeviceState::On
                    } else {
                        DeviceState::Off
                    };
                    assert(self@.devices =~= set_state_at(devs, i as int, st));
                    assert(self@ =~= room_turn(old(self)@, device_name@, st).0);
                    if old(self)@.wf() {
                        let post = set_state_at(devs, i as int, st);
                        assert(forall|k: int| 0 <= k < post.len() ==> post[k].name == devs[k].name);
                    }
                }
                Ok(())
            },
        }
    }
}

} // verus!
