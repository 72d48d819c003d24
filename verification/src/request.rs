//! The request side of the token protocol: one line of text is parsed into a
//! structured command. Parsing is total — a missing device name or an unknown
//! command becomes a well-formed `Error` request carrying the reason, never a
//! failure of the parse step itself.

use crate::text::{lemma_scan_bounds, next_token, skip_spaces, str_eq, token_at, token_end};
use vstd::prelude::*;
use vstd::string::{StrSliceExecFns, StringExecFns};

verus! {

/// A parsed protocol request.
pub enum Request {
    GetDeviceNames,
    StatusAll,
    StatusDevice { device_name: String },
    TurnOn { device_name: String },
    TurnOff { device_name: String },
    Error { reason: String },
}

/// Model of a parsed protocol request.
pub enum RequestView {
    GetDeviceNames,
    StatusAll,
    StatusDevice { device_name: Seq<char> },
    TurnOn { device_name: Seq<char> },
    TurnOff { device_name: Seq<char> },
    Error { reason: Seq<char> },
}

impl View for Request {
    type V = RequestView;

    open spec fn view(&self) -> RequestView {
        match self {
            Request::GetDeviceNames => RequestView::GetDeviceNames,
            Request::StatusAll => RequestView::StatusAll,
            Request::StatusDevice { device_name } => RequestView::StatusDevice {
                device_name: device_name@,
            },
            Request::TurnOn { device_name } => RequestView::TurnOn { device_name: device_name@ },
            Request::TurnOff { device_name } => RequestView::TurnOff {
                device_name: device_name@,
            },
            Request::Error { reason } => RequestView::Error { reason: reason@ },
        }
    }
}

/// The request grammar: the first whitespace-delimited token picks the
/// command; commands addressing one device take the second token as the
/// device name and turn into an `Error` request when it is missing; an
/// unrecognized first token turns into an `Error` request as well.
pub open spec fn parse_request(s: Seq<char>) -> RequestView {
    let (a, b) = token_at(s, 0);
    let cmd = s.subrange(a, b);
    let c = skip_spaces(s, b);
    let d = token_end(s, c);
    let has_arg = c < s.len();
    let arg = s.subrange(c, d);
    if cmd == "get_device_names"@ {
        RequestView::GetDeviceNames
    } else if cmd == "status_all"@ {
        RequestView::StatusAll
    } else if cmd == "status_device"@ {
        if has_arg {
            RequestView::StatusDevice { device_name: arg }
        } else {
            RequestView::Error { reason: "No device name specified"@ }
        }
    } else if cmd == "turn_on"@ {
        if has_arg {
            RequestView::TurnOn { device_name: arg }
        } else {
            RequestView::Error { reason: "No device name specified"@ }
        }
    } else if cmd == "turn_off"@ {
        if has_arg {
            RequestView::TurnOff { device_name: arg }
        } else {
            RequestView::Error { reason: "No device name specified"@ }
        }
    } else {
        RequestView::Error { reason: "Unknown command"@ }
    }
}

impl Request {
    /// Parses one request line; total over every input line.
    pub fn parse(line: &str) -> (r: Request)
        ensures
            r@ == parse_request(line@),
    {
        let (cmd, b) = next_token(line, 0);
        proof {
            lemma_scan_bounds(line@, b as int);
        }
        let (arg, _past_arg) = next_token(line, b);
        let has_arg = !arg.as_str().is_empty();
        proof {
            let c = skip_spaces(line@, b as int);
            if c < line@.len() {
                lemma_scan_bounds(line@, c + 1);
                assert(token_end(line@, c) == token_end(line@, c + 1));
                assert(token_end(line@, c) > c);
            }
        }
        if str_eq(cmd.as_str(), "get_device_names") {
            Request::GetDeviceNames
        } else if str_eq(cmd.as_str(), "status_all") {
            Request::StatusAll
        } else if str_eq(cmd.as_str(), "status_device") {
            if has_arg {
                Request::StatusDevice { device_name: arg }
            } else {
                Request::Error { reason: "No device name specified".to_owned() }
            }
        } else if str_eq(cmd.as_str(), "turn_on") {
            if has_arg {
                Request::TurnOn { device_name: arg }
            } else {
                Request::Error { reason: "No device name specified".to_owned() }
            }
        } else if str_eq(cmd.as_str(), "turn_off") {
            if has_arg {
                Request::TurnOff { device_name: arg }
            } else {
                Request::Error { reason: "No device name specified".to_owned() }
            }
        } else {
            Request::Error { reason: "Unknown command".to_owned() }
        }
    }
}

} // verus!
