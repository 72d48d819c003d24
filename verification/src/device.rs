//! Devices: switchable sockets and thermometers. A device has a name, an
//! on/off state, and a human-readable report; the measurement inside a report
//! (power draw, temperature) is drawn from an external generator and is only
//! taken while the device is on.

use crate::text::{dec_digits, int_digits, i32_to_string, u32_to_string};
use crate::DeviceState;
use rand::Rng;
use vstd::prelude::*;
use vstd::string::{StrSliceExecFns, StringExecFns};

verus! {

/// The closed set of device kinds the registry knows.
pub enum DeviceKind {
    Socket,
    Thermometer,
}

/// Mathematical model of a device: everything a report or a registry
/// operation can depend on.
#[verifier::ext_equal]
pub struct DeviceView {
    pub kind: DeviceKind,
    pub name: Seq<char>,
    pub state: DeviceState,
}

/// Relies on rand's `Rng::gen_range` (called on `rand::thread_rng()`): it
/// returns a value drawn from the given range and panics only when the range
/// is empty, which the precondition rules out.
#[verifier::external_body]
fn random_in_range(low: i64, high: i64) -> (r: i64)
    requires
        low < high,
    ensures
        low <= r < high,
{
    rand::thread_rng().gen_range(low..high)
}

/// Text of a device state as it appears inside reports.
pub open spec fn state_text(s: DeviceState) -> Seq<char> {
    match s {
        DeviceState::On => "On"@,
        DeviceState::Off => "Off"@,
    }
}

fn state_str(s: DeviceState) -> (r: &'static str)
    ensures
        r@ == state_text(s),
{
    match s {
        DeviceState::On => "On",
        DeviceState::Off => "Off",
    }
}

/// The report a socket renders for a given power value.
pub open spec fn socket_report_text(name: Seq<char>, state: DeviceState, power: int) -> Seq<
    char,
> {
    "Socket name: "@ + name + "\nstate: "@ + state_text(state) + "\ncurrent power: "@
        + dec_digits(power)
}

/// The report a thermometer renders for a given temperature value.
pub open spec fn thermometer_report_text(name: Seq<char>, state: DeviceState, temp: int) -> Seq<
    char,
> {
    "Thermometer name: "@ + name + "\nstate: "@ + state_text(state) + "\ncurrent temperature: "@
        + int_digits(temp)
}

/// What `get_report` may return for a device: when the device is off the
/// report is fixed, with the measurement shown as zero; when it is on, the
/// measurement is some value from the generator's range.
pub open spec fn device_report_ok(d: DeviceView, s: Seq<char>) -> bool {
    match d.kind {
        DeviceKind::Socket => match d.state {
            DeviceState::On => exists|p: int|
                1 <= p < 100 && s == socket_report_text(d.name, d.state, p),
            DeviceState::Off => s == socket_report_text(d.name, d.state, 0),
        },
        DeviceKind::Thermometer => match d.state {
            DeviceState::On => exists|t: int|
                -30 <= t < 40 && s == thermometer_report_text(d.name, d.state, t),
            DeviceState::Off => s == thermometer_report_text(d.name, d.state, 0),
        },
    }
}

/// A power socket that reports its current draw while on.
#[derive(Debug)]
pub struct Socket {
    name: String,
    state: DeviceState,
}

impl View for Socket {
    type V = DeviceView;

    closed spec fn view(&self) -> DeviceView {
        DeviceView { kind: DeviceKind::Socket, name: self.name@, state: self.state }
    }
}

impl Socket {
    /// A fresh socket with the given name, switched off.
    pub fn new(name: &str) -> (r: Self)
        ensures
            r@ == (DeviceView { kind: DeviceKind::Socket, name: name@, state: DeviceState::Off }),
    {
        Socket { name: name.to_owned(), state: DeviceState::Off }
    }

    pub fn name(&self) -> (r: &str)
        ensures
            r@ == self@.name,
    {
        self.name.as_str()
    }

    pub fn state(&self) -> (r: DeviceState)
        ensures
            r == self@.state,
    {
        self.state
    }

    pub fn turn_on(&mut self)
        ensures
            final(self)@ == (DeviceView { state: DeviceState::On, ..old(self)@ }),
    {
        self.state = DeviceState::On;
    }

    pub fn turn_off(&mut self)
        ensures
            final(self)@ == (DeviceView { state: DeviceState::Off, ..old(self)@ }),
    {
        self.state = DeviceState::Off;
    }

    /// The socket's report; the power draw is measured only while it is on
    /// and shown as zero otherwise.
    pub fn get_report(&self) -> (r: String)
        ensures
            device_report_ok(self@, r@),
    {
        let power: u32 = match self.state {
            DeviceState::On => random_in_range(1, 100) as u32,
            DeviceState::Off => 0u32,
        };
        let mut out = "Socket name: ".to_owned();
        out.append(self.name.as_str());
        out.append("\nstate: ");
        out.append(state_str(self.state));
        out.append("\ncurrent power: ");
        out.append(u32_to_string(power).as_str());
        proof {
            assert(out@ =~= socket_report_text(self@.name, self@.state, power as int));
        }
        out
    }
}

/// A thermometer that reports the temperature while on.
#[derive(Debug)]
pub struct Thermometer {
    name: String,
    state: DeviceState,
}

impl View for Thermometer {
    type V = DeviceView;

    closed spec fn view(&self) -> DeviceView {
        DeviceView { kind: DeviceKind::Thermometer, name: self.name@, state: self.state }
    }
}

impl Thermometer {
    /// A fresh thermometer with the given name, switched off.
    pub fn new(name: &str) -> (r: Self)
        ensures
            r@ == (DeviceView {
                kind: DeviceKind::Thermometer,
                name: name@,
                state: DeviceState::Off,
            }),
    {
        Thermometer { name: name.to_owned(), state: DeviceState::Off }
    }

    pub fn name(&self) -> (r: &str)
        ensures
            r@ == self@.name,
    {
        self.name.as_str()
    }

    pub fn state(&self) -> (r: DeviceState)
        ensures
            r == self@.state,
    {
        self.state
    }

    pub fn turn_on(&mut self)
        ensures
            final(self)@ == (DeviceView { state: DeviceState::On, ..old(self)@ }),
    {
        self.state = DeviceState::On;
    }

    pub fn turn_off(&mut self)
        ensures
            final(self)@ == (DeviceView { state: DeviceState::Off, ..old(self)@ }),
    {
        self.state = DeviceState::Off;
    }

    /// The thermometer's report; the temperature is measured only while it is
    /// on and shown as zero otherwise.
    pub fn get_report(&self) -> (r: String)
        ensures
            device_report_ok(self@, r@),
    {
        let temp: i32 = match self.state {
            DeviceState::On => random_in_range(-30, 40) as i32,
            DeviceState::Off => 0i32,
        };
        let mut out = "Thermometer name: ".to_owned();
        out.append(self.name.as_str());
        out.append("\nstate: ");
        out.append(state_str(self.state));
        out.append("\ncurrent temperature: ");
        out.append(i32_to_string(temp).as_str());
        proof {
            assert(out@ =~= thermometer_report_text(self@.name, self@.state, temp as int));
        }
        out
    }
}

/// A device of any kind; rooms and servers own values of this type.
#[derive(Debug)]
pub enum Device {
    Socket(Socket),
    Thermometer(Thermometer),
}

impl View for Device {
    type V = DeviceView;

    open spec fn view(&self) -> DeviceView {
        match self {
            Device::Socket(s) => s@,
            Device::Thermometer(t) => t@,
        }
    }
}

impl Device {
    /// The device's name, its identity within a room.
    pub fn name(&self) -> (r: &str)
        ensures
            r@ == self@.name,
    {
        match self {
            Device::Socket(s) => s.name(),
            Device::Thermometer(t) => t.name(),
        }
    }

    pub fn state(&self) -> (r: DeviceState)
        ensures
            r == self@.state,
    {
        match self {
            Device::Socket(s) => s.state(),
            Device::Thermometer(t) => t.state(),
        }
    }

    /// Switches the device on; nothing else about it changes.
    pub fn turn_on(&mut self)
        ensures
            final(self)@ == (DeviceView { state: DeviceState::On, ..old(self)@ }),
    {
        match self {
            Device::Socket(s) => s.turn_on(),
            Device::Thermometer(t) => t.turn_on(),
        }
    }

    /// Switches the device off; nothing else about it changes.
    pub fn turn_off(&mut self)
        ensures
            final(self)@ == (DeviceView { state: DeviceState::Off, ..old(self)@ }),
    {
        match self {
            Device::Socket(s) => s.turn_off(),
            Device::Thermometer(t) => t.turn_off(),
        }
    }

    /// The device's report: name, state, and the measurement taken while on.
    pub fn get_report(&self) -> (r: String)
        ensures
            device_report_ok(self@, r@),
    {
        match self {
            Device::Socket(s) => s.get_report(),
            Device::Thermometer(t) => t.get_report(),
        }
    }
}

/// Whether some device in the collection carries this name.
pub open spec fn has_device_named(devs: Seq<DeviceView>, name: Seq<char>) -> bool {
    exists|i: int| 0 <= i < devs.len() && devs[i].name == name
}

/// Index of the first device with this name at or after `from` (the length if
/// there is none).
pub open spec fn find_device_named(devs: Seq<DeviceView>, name: Seq<char>, from: int) -> int
    decreases devs.len() - from when 0 <= from <= devs.len()
{
    if from < devs.len() {
        if devs[from].name == name {
            from
        } else {
            find_device_named(devs, name, from + 1)
        }
    } else {
        devs.len() as int
    }
}

pub proof fn lemma_find_device_named(devs: Seq<DeviceView>, name: Seq<char>, from: int)
    requires
        0 <= from <= devs.len(),
    ensures
        from <= find_device_named(devs, name, from) <= devs.len(),
        find_device_named(devs, name, from) < devs.len() ==> devs[find_device_named(
            devs,
            name,
            from,
        )].name == name,
        forall|i: int| from <= i < find_device_named(devs, name, from) ==> devs[i].name != name,
        find_device_named(devs, name, from) == devs.len() ==> forall|i: int|
            from <= i < devs.len() ==> devs[i].name != name,
    decreases devs.len() - from,
{
    if from < devs.len() && devs[from].name != name {
        lemma_find_device_named(devs, name, from + 1);
    }
}

/// Searching from the start succeeds exactly when some device has the name.
pub proof fn lemma_find_device_named_has(devs: Seq<DeviceView>, name: Seq<char>)
    ensures
        (find_device_named(devs, name, 0) < devs.len()) == has_device_named(devs, name),
{
    lemma_find_device_named(devs, name, 0);
    if find_device_named(devs, name, 0) < devs.len() {
        assert(devs[find_device_named(devs, name, 0)].name == name);
    }
}

/// The search result depends on the device names alone.
pub proof fn lemma_find_device_named_same_names(
    a: Seq<DeviceView>,
    b: Seq<DeviceView>,
    name: Seq<char>,
    from: int,
)
    requires
        a.len() == b.len(),
        forall|k: int| 0 <= k < a.len() ==> a[k].name == b[k].name,
        0 <= from <= a.len(),
    ensures
        find_device_named(a, name, from) == find_device_named(b, name, from),
    decreases a.len() - from,
{
    if from < a.len() && a[from].name != name {
        lemma_find_device_named_same_names(a, b, name, from + 1);
    }
}

/// The collection with the device at index `i` set to the given state.
pub open spec fn set_state_at(devs: Seq<DeviceView>, i: int, st: DeviceState) -> Seq<DeviceView> {
    devs.update(i, DeviceView { state: st, ..devs[i] })
}

/// The collection with the first device of this name (if any) set to the
/// given state.
pub open spec fn turn_named(devs: Seq<DeviceView>, name: Seq<char>, st: DeviceState) -> Seq<
    DeviceView,
> {
    let i = find_device_named(devs, name, 0);
    if i < devs.len() {
        set_state_at(devs, i, st)
    } else {
        devs
    }
}

/// The collection with every device of this name removed, order of the rest
/// kept.
pub open spec fn remove_named(devs: Seq<DeviceView>, name: Seq<char>) -> Seq<DeviceView>
    decreases devs.len(),
{
    if devs.len() == 0 {
        Seq::empty()
    } else if devs[0].name == name {
        remove_named(devs.drop_first(), name)
    } else {
        seq![devs[0]] + remove_named(devs.drop_first(), name)
    }
}

/// The device names in collection order.
pub open spec fn device_names(devs: Seq<DeviceView>) -> Seq<Seq<char>> {
    devs.map_values(|d: DeviceView| d.name)
}

/// No two devices in the collection share a name.
pub open spec fn unique_device_names(devs: Seq<DeviceView>) -> bool {
    forall|i: int, j: int| 0 <= i < j < devs.len() ==> devs[i].name != devs[j].name
}

/// Removal takes out every device of the given name, keeps only devices whose
/// names were present before, and preserves name uniqueness.
pub proof fn lemma_remove_named_props(devs: Seq<DeviceView>, name: Seq<char>)
    ensures
        !has_device_named(remove_named(devs, name), name),
        forall|k: int|
            0 <= k < remove_named(devs, name).len() ==> has_device_named(
                devs,
                #[trigger] remove_named(devs, name)[k].name,
            ),
        unique_device_names(devs) ==> unique_device_names(remove_named(devs, name)),
    decreases devs.len(),
{
    let res = remove_named(devs, name);
    if devs.len() == 0 {
    } else {
        let rest = devs.drop_first();
        lemma_remove_named_props(rest, name);
        let sub = remove_named(rest, name);
        assert forall|k: int| 0 <= k < sub.len() implies has_device_named(
            devs,
            #[trigger] sub[k].name,
        ) by {
            let i = choose|i: int| 0 <= i < rest.len() && rest[i].name == sub[k].name;
            assert(devs[i + 1].name == sub[k].name);
        }
        if devs[0].name == name {
        } else {
            assert(res == seq![devs[0]] + sub);
            assert(res[0] == devs[0]);
            assert forall|k: int| 0 <= k < res.len() implies has_device_named(
                devs,
                #[trigger] res[k].name,
            ) by {
                if k > 0 {
                    assert(res[k] == sub[k - 1]);
                }
            }
            assert(!has_device_named(res, name)) by {
                if has_device_named(res, name) {
                    let k = choose|k: int| 0 <= k < res.len() && res[k].name == name;
                    assert(k > 0 ==> sub[k - 1].name == name);
                }
            }
            if unique_device_names(devs) {
                assert(unique_device_names(rest)) by {
                    assert(forall|i: int, j: int|
                        0 <= i < j < rest.len() ==> rest[i] == devs[i + 1] && rest[j] == devs[j
                            + 1]);
                }
                assert forall|i: int, j: int| 0 <= i < j < res.len() implies res[i].name
                    != res[j].name by {
                    if i == 0 {
                        // every later entry keeps a name that already stood in `rest`,
                        // and `devs[0]` clashes with none of those
                        assert(has_device_named(rest, sub[j - 1].name));
                        let m = choose|m: int|
                            0 <= m < rest.len() && rest[m].name == sub[j - 1].name;
                        assert(devs[m + 1].name == sub[j - 1].name);
                        assert(devs[0].name != devs[m + 1].name);
                    } else {
                        assert(res[i] == sub[i - 1] && res[j] == sub[j - 1]);
                    }
                }
            }
        }
    }
}

/// Addresses one device from the home level: the room it stands in and its
/// name there.
pub struct DeviceInfo {
    pub device_name: String,
    pub room_name: String,
}

impl DeviceInfo {
    pub fn new(device_name: &str, room_name: &str) -> (r: Self)
        ensures
            r.device_name@ == device_name@,
            r.room_name@ == room_name@,
    {
        DeviceInfo { device_name: device_name.to_owned(), room_name: room_name.to_owned() }
    }
}

} // verus!
