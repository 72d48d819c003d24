//! The dispatcher behind the token protocol: a server owns a flat collection
//! of devices, unique by name, and answers one request line with one response
//! line. No request leaves the devices half-changed: the switching commands
//! write a single device's state, everything else only reads.

use crate::device::{
    device_names, device_report_ok, find_device_named, has_device_named, lemma_find_device_named,
    lemma_find_device_named_has, lemma_find_device_named_same_names, set_state_at,
    socket_report_text, thermometer_report_text, turn_named, unique_device_names, Device,
    DeviceKind, DeviceView,
};
use crate::request::{parse_request, Request, RequestView};
use crate::response::{response_text, Response, ResponseView};
use crate::room::device_reports_ok;
use crate::text::{dec_digits, join_sep, lemma_join_sep_push, str_eq, u32_to_string};
use crate::DeviceState;
use vstd::prelude::*;
use vstd::std_specs::vec::vec_index_mut;
use vstd::string::{StrSliceExecFns, StringExecFns};

verus! {

/// Mathematical model of a server: where it listens and what it controls.
#[verifier::ext_equal]
pub struct ServerView {
    pub address: Seq<char>,
    pub devices: Seq<DeviceView>,
}

impl ServerView {
    /// The server's invariant: no two of its devices share a name.
    pub open spec fn wf(self) -> bool {
        unique_device_names(self.devices)
    }
}

/// The reason a request addressing an unknown device is answered with.
pub open spec fn not_exist_text(name: Seq<char>) -> Seq<char> {
    "Device with name '"@ + name + "' does not exist"@
}

/// What `Server::add_device` does: the collection unchanged and a
/// duplicate-name message, or the device appended.
pub open spec fn server_add_device(s: ServerView, d: DeviceView) -> (ServerView, Result<
    (),
    Seq<char>,
>) {
    if has_device_named(s.devices, d.name) {
        (s, Err("Device with name "@ + d.name + " exists!"@))
    } else {
        (ServerView { devices: s.devices.push(d), ..s }, Ok(()))
    }
}

/// An add result with its message taken to the model level.
pub open spec fn add_result_view(r: Result<(), String>) -> Result<(), Seq<char>> {
    match r {
        Ok(()) => Ok(()),
        Err(m) => Err(m@),
    }
}

/// How one request changes the device collection: the switching commands set
/// the first device of the given name, every other request changes nothing.
pub open spec fn server_step_devices(devs: Seq<DeviceView>, req: RequestView) -> Seq<DeviceView> {
    match req {
        RequestView::TurnOn { device_name } => turn_named(devs, device_name, DeviceState::On),
        RequestView::TurnOff { device_name } => turn_named(devs, device_name, DeviceState::Off),
        _ => devs,
    }
}

/// What response a request is answered with, against the devices as they
/// stood when the request arrived.
pub open spec fn server_response_ok(
    devs: Seq<DeviceView>,
    req: RequestView,
    resp: ResponseView,
) -> bool {
    match req {
        RequestView::GetDeviceNames => resp == ResponseView::Success {
            result: Some(join_sep(device_names(devs), ", "@)),
        },
        RequestView::StatusAll => match resp {
            ResponseView::Success { result: Some(p) } => exists|reps: Seq<Seq<char>>|
                device_reports_ok(devs, reps) && p == join_sep(reps, ";;;"@),
            _ => false,
        },
        RequestView::StatusDevice { device_name } => {
            let i = find_device_named(devs, device_name, 0);
            if i < devs.len() {
                match resp {
                    ResponseView::Success { result: Some(p) } => device_report_ok(devs[i], p),
                    _ => false,
                }
            } else {
                resp == ResponseView::Error { reason: not_exist_text(device_name) }
            }
        },
        RequestView::TurnOn { device_name } => {
            if has_device_named(devs, device_name) {
                resp == ResponseView::Success { result: None }
            } else {
                resp == ResponseView::Error { reason: not_exist_text(device_name) }
            }
        },
        RequestView::TurnOff { device_name } => {
            if has_device_named(devs, device_name) {
                resp == ResponseView::Success { result: None }
            } else {
                resp == ResponseView::Error { reason: not_exist_text(device_name) }
            }
        },
        RequestView::Error { reason } => resp == ResponseView::Error { reason },
    }
}

fn not_exist_msg(name: &str) -> (r: String)
    ensures
        r@ == not_exist_text(name@),
{
    let mut out = "Device with name '".to_owned();
    out.append(name);
    out.append("' does not exist");
    out
}

/// Answers the token protocol over an owned collection of devices.
pub struct Server {
    address: String,
    devices: Vec<Device>,
}

impl View for Server {
    type V = ServerView;

    closed spec fn view(&self) -> ServerView {
        ServerView { address: self.address@, devices: self.devices@.map_values(|d: Device| d@) }
    }
}

impl Server {
    /// A fresh server for the given address and port, with no devices;
    /// well-formed.
    pub fn new(address: &str, port: u32) -> (r: Self)
        ensures
            r@.address == address@ + ":"@ + dec_digits(port as int),
            r@.devices =~= Seq::<DeviceView>::empty(),
            r@.wf(),
    {
        let mut a = address.to_owned();
        a.append(":");
        a.append(u32_to_string(port).as_str());
        let r = Server { address: a, devices: Vec::new() };
        proof {
            assert(r@.devices =~= Seq::<DeviceView>::empty());
        }
        r
    }

    /// The address and port the server was made for, as `address:port`.
    pub fn address(&self) -> (r: &str)
        ensures
            r@ == self@.address,
    {
        self.address.as_str()
    }

    /// Index of the first device with this name, if one is there.
    fn find_index(&self, name: &str) -> (r: Option<usize>)
        ensures
            ({
                let fi = find_device_named(self@.devices, name@, 0);
                match r {
                    Some(i) => fi == i as int && i < self@.devices.len(),
                    None => fi == self@.devices.len() as int,
                }
            }),
    {
        let ghost devs = self@.devices;
        let mut i: usize = 0;
        while i < self.devices.len()
            invariant
                0 <= i <= devs.len(),
                devs == self@.devices,
                devs.len() == self.devices@.len(),
                find_device_named(devs, name@, 0) == find_device_named(devs, name@, i as int),
            decreases self.devices.len() - i,
        {
            if str_eq(self.devices[i].name(), name) {
                return Some(i);
            }
            i = i + 1;
        }
        None
    }

    /// Takes ownership of the device if its name is not yet used; fails with
    /// a duplicate-name message and changes nothing otherwise.
    /// Well-formedness is preserved.
    pub fn add_device(&mut self, device: Device) -> (r: Result<(), String>)
        ensures
            final(self)@ == server_add_device(old(self)@, device@).0,
            add_result_view(r) == server_add_device(old(self)@, device@).1,
            old(self)@.wf() ==> final(self)@.wf(),
    {
        proof {
            lemma_find_device_named(old(self)@.devices, device@.name, 0);
            lemma_find_device_named_has(old(self)@.devices, device@.name);
        }
        match self.find_index(device.name()) {
            Some(_) => {
                let mut msg = "Device with name ".to_owned();
                msg.append(device.name());
                msg.append(" exists!");
                Err(msg)
            },
            None => {
                self.devices.push(device);
                proof {
                    assert(self@.devices =~= old(self)@.devices.push(device@));
                    if old(self)@.wf() {
                        let post = old(self)@.devices.push(device@);
                        assert forall|i: int, j: int| 0 <= i < j < post.len() implies post[i].name
                            != post[j].name by {
                            if j == post.len() - 1 {
                                assert(post[i] == old(self)@.devices[i]);
                            }
                        }
                    }
                }
                Ok(())
            },
        }
    }

    /// Executes one parsed request against the devices and produces the
    /// response to send back; switching commands mutate exactly the named
    /// device, everything else leaves the collection as it was.
    pub fn execute(&mut self, request: Request) -> (r: Response)
        ensures
            final(self)@.address == old(self)@.address,
            final(self)@.devices == server_step_devices(old(self)@.devices, request@),
            server_response_ok(old(self)@.devices, request@, r@),
            old(self)@.wf() ==> final(self)@.wf(),
    {
        match request {
            Request::GetDeviceNames => {
                let mut out = String::new();
                let ghost mut done: Seq<Seq<char>> = Seq::empty();
                let mut i: usize = 0;
                while i < self.devices.len()
                    invariant
                        0 <= i <= self.devices@.len(),
                        done.len() == i,
                        forall|j: int| 0 <= j < i ==> done[j] == self@.devices[j].name,
                        out@ == join_sep(done, ", "@),
                    decreases self.devices.len() - i,
                {
                    if i > 0 {
                        out.append(", ");
                    }
                    proof {
                        lemma_join_sep_push(done, ", "@, self@.devices[i as int].name);
                    }
                    out.append(self.devices[i].name());
                    proof {
                        done = done.push(self@.devices[i as int].name);
                        assert(out@ =~= join_sep(done, ", "@));
                    }
                    i = i + 1;
                }
                proof {
                    assert(done =~= device_names(self@.devices));
                }
                Response::Success { result: Some(out) }
            },
            Request::StatusAll => {
                let ghost mut reps: Seq<Seq<char>> = Seq::empty();
                let mut out = String::new();
                let mut i: usize = 0;
                while i < self.devices.len()
                    invariant
                        0 <= i <= self.devices@.len(),
                        reps.len() == i,
                        forall|j: int|
                            0 <= j < i ==> device_report_ok(self@.devices[j], #[trigger] reps[j]),
                        out@ == join_sep(reps, ";;;"@),
                    decreases self.devices.len() - i,
                {
                    if i > 0 {
                        out.append(";;;");
                    }
                    let rep = self.devices[i].get_report();
                    proof {
                        lemma_join_sep_push(reps, ";;;"@, rep@);
                    }
                    out.append(rep.as_str());
                    proof {
                        reps = reps.push(rep@);
                        assert(out@ =~= join_sep(reps, ";;;"@));
                    }
                    i = i + 1;
                }
                proof {
                    assert(device_reports_ok(self@.devices, reps));
                }
                Response::Success { result: Some(out) }
            },
            Request::StatusDevice { device_name } => {
                match self.find_index(device_name.as_str()) {
                    Some(i) => Response::Success { result: Some(self.devices[i].get_report()) },
                    None => Response::Error { reason: not_exist_msg(device_name.as_str()) },
                }
            },
            Request::TurnOn { device_name } => self.turn(device_name, true),
            Request::TurnOff { device_name } => self.turn(device_name, false),
            Request::Error { reason } => Response::Error { reason },
        }
    }

    fn turn(&mut self, device_name: String, on: bool) -> (r: Response)
        ensures
            ({
                let st = if on {
                    DeviceState::On
                } else {
                    DeviceState::Off
                };
                let req = if on {
                    RequestView::TurnOn { device_name: device_name@ }
                } else {
                    RequestView::TurnOff { device_name: device_name@ }
                };
                &&& final(self)@.address == old(self)@.address
                &&& final(self)@.devices == turn_named(old(self)@.devices, device_name@, st)
                &&& server_response_ok(old(self)@.devices, req, r@)
                &&& (old(self)@.wf() ==> final(self)@.wf())
            }),
    {
        proof {
            lemma_find_device_named_has(old(self)@.devices, device_name@);
        }
        match self.find_index(device_name.as_str()) {
            None => Response::Error { reason: not_exist_msg(device_name.as_str()) },
            Some(i) => {
                let ghost devs = old(self)@.devices;
                let ghost st = if on {
                    DeviceState::On
                } else {
                    DeviceState::Off
                };
                let d = vec_index_mut(&mut self.devices, i);
                if on {
                    d.turn_on();
                } else {
                    d.turn_off();
                }
                proof {
                    assert(self@.devices =~= set_state_at(devs, i as int, st));
                    if old(self)@.wf() {
                        let post = set_state_at(devs, i as int, st);
                        assert(forall|k: int| 0 <= k < post.len() ==> post[k].name == devs[k].name);
                    }
                }
                Response::Success { result: None }
            },
        }
    }

    /// Parses one request line of the path protocol flavor into its method
    /// and command.
    pub fn parse_request(request_line: &str) -> (r: Result<crate::http::Request, ()>)
        ensures
            ({
                match crate::http::parse_request_line(request_line@) {
                    Ok(v) => r matches Ok(req) && req@ == v,
                    Err(()) => r is Err,
                }
            }),
    {
        crate::http::parse_request_line_exec(request_line)
    }

    /// One full protocol step: parses the line, executes the request, and
    /// renders the response line to send back.
    pub fn handle_line(&mut self, line: &str) -> (r: String)
        ensures
            final(self)@.address == old(self)@.address,
            final(self)@.devices == server_step_devices(
                old(self)@.devices,
                parse_request(line@),
            ),
            exists|resp: ResponseView|
                server_response_ok(old(self)@.devices, parse_request(line@), resp) && r@
                    == response_text(resp),
            old(self)@.wf() ==> final(self)@.wf(),
    {
        let request = Request::parse(line);
        let response = self.execute(request);
        let out = response.format();
        proof {
            assert(server_response_ok(old(self)@.devices, parse_request(line@), response@) && out@
                == response_text(response@));
        }
        out
    }
}

/// Turning a device on is idempotent: after one successful `turn_on`, the
/// named device stands on; a second `turn_on` of the same name changes no
/// device, and the only response it can be answered with is the bare success,
/// not an error.
pub proof fn lemma_turn_on_idempotent(devs: Seq<DeviceView>, name: Seq<char>)
    requires
        has_device_named(devs, name),
    ensures
        ({
            let req = RequestView::TurnOn { device_name: name };
            let d1 = server_step_devices(devs, req);
            let i = find_device_named(devs, name, 0);
            &&& d1[i].state is On
            &&& server_step_devices(d1, req) == d1
            &&& forall|resp: ResponseView|
                server_response_ok(d1, req, resp) ==> resp == ResponseView::Success {
                    result: None,
                }
        }),
{
    let req = RequestView::TurnOn { device_name: name };
    let d1 = server_step_devices(devs, req);
    lemma_find_device_named_has(devs, name);
    lemma_find_device_named(devs, name, 0);
    let i = find_device_named(devs, name, 0);
    assert(forall|k: int| 0 <= k < devs.len() ==> d1[k].name == devs[k].name);
    lemma_find_device_named_same_names(devs, d1, name, 0);
    assert(d1[i].name == name);
    assert(server_step_devices(d1, req) =~= d1);
}

/// After `turn_off` of a name succeeds, a status request for that name can
/// only be answered with the fixed off-state report, whose measurement reads
/// zero — no measurement is taken from a device that is off.
pub proof fn lemma_turn_off_then_status(devs: Seq<DeviceView>, name: Seq<char>)
    requires
        has_device_named(devs, name),
    ensures
        ({
            let d1 = server_step_devices(devs, RequestView::TurnOff { device_name: name });
            let i = find_device_named(devs, name, 0);
            let off_report = match d1[i].kind {
                DeviceKind::Socket => socket_report_text(
                    d1[i].name,
                    DeviceState::Off,
                    0,
                ),
                DeviceKind::Thermometer => thermometer_report_text(
                    d1[i].name,
                    DeviceState::Off,
                    0,
                ),
            };
            &&& d1[i].state is Off
            &&& forall|resp: ResponseView|
                server_response_ok(d1, RequestView::StatusDevice { device_name: name }, resp)
                    ==> resp == ResponseView::Success { result: Some(off_report) }
        }),
{
    let d1 = server_step_devices(devs, RequestView::TurnOff { device_name: name });
    lemma_find_device_named_has(devs, name);
    lemma_find_device_named(devs, name, 0);
    let i = find_device_named(devs, name, 0);
    assert(forall|k: int| 0 <= k < devs.len() ==> d1[k].name == devs[k].name);
    lemma_find_device_named_same_names(devs, d1, name, 0);
    assert(d1[i].name == name);
}

} // verus!
