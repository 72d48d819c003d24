//! The path-shaped protocol flavor: an HTTP-style request line such as
//! `GET /turn_on/socket1 HTTP/1.1` carries a method and a `/command[/name]`
//! path. The command token is matched after trimming and ASCII lower-casing;
//! the device name is taken as written.

use crate::text::{
    find_char, find_char_exec, lemma_scan_bounds, lower_seq, next_token, skip_spaces,
    str_eq_lower, token_at, token_end, trim, trim_seq,
};
use vstd::prelude::*;
use vstd::string::{StrSliceExecFns, StringExecFns};

verus! {

/// The request methods the server distinguishes.
#[derive(Clone, Copy, Debug, PartialEq, Eq, Structural)]
pub enum RequestType {
    Get,
    Post,
    Del,
    Put,
}

impl Default for RequestType {
    /// The method assumed when none is given.
    fn default() -> (r: Self)
        ensures
            r == RequestType::Get,
    {
        RequestType::Get
    }
}

/// What the request method token parses to: `Err` for an unknown method.
pub open spec fn parse_request_type(s: Seq<char>) -> Result<RequestType, ()> {
    let t = lower_seq(trim_seq(s));
    if t == "get"@ {
        Ok(RequestType::Get)
    } else if t == "post"@ {
        Ok(RequestType::Post)
    } else if t == "del"@ {
        Ok(RequestType::Del)
    } else if t == "put"@ {
        Ok(RequestType::Put)
    } else {
        Err(())
    }
}

impl RequestType {
    /// Parses the method token, case-insensitively.
    pub fn parse(s: &str) -> (r: Result<RequestType, ()>)
        ensures
            r == parse_request_type(s@),
    {
        let t = trim(s);
        if str_eq_lower(t.as_str(), "get") {
            Ok(RequestType::Get)
        } else if str_eq_lower(t.as_str(), "post") {
            Ok(RequestType::Post)
        } else if str_eq_lower(t.as_str(), "del") {
            Ok(RequestType::Del)
        } else if str_eq_lower(t.as_str(), "put") {
            Ok(RequestType::Put)
        } else {
            Err(())
        }
    }
}

/// A parsed path command.
#[derive(Debug)]
pub enum Command {
    TurnOn { device_name: String },
    TurnOff { device_name: String },
    GetStatus,
    GetDeviceStatus { device_name: String },
    ShowMain,
    Error { error_msg: String },
    Ignore,
}

/// Model of a parsed path command.
pub enum CommandView {
    TurnOn { device_name: Seq<char> },
    TurnOff { device_name: Seq<char> },
    GetStatus,
    GetDeviceStatus { device_name: Seq<char> },
    ShowMain,
    Error { error_msg: Seq<char> },
    Ignore,
}

impl View for Command {
    type V = CommandView;

    open spec fn view(&self) -> CommandView {
        match self {
            Command::TurnOn { device_name } => CommandView::TurnOn {
                device_name: device_name@,
            },
            Command::TurnOff { device_name } => CommandView::TurnOff {
                device_name: device_name@,
            },
            Command::GetStatus => CommandView::GetStatus,
            Command::GetDeviceStatus { device_name } => CommandView::GetDeviceStatus {
                device_name: device_name@,
            },
            Command::ShowMain => CommandView::ShowMain,
            Command::Error { error_msg } => CommandView::Error { error_msg: error_msg@ },
            Command::Ignore => CommandView::Ignore,
        }
    }
}

impl Default for Command {
    /// The command assumed for an empty path.
    fn default() -> (r: Self)
        ensures
            r@ == CommandView::ShowMain,
    {
        Command::ShowMain
    }
}

/// The path grammar: the segment after the first `/` picks the command
/// (trimmed, compared ASCII-case-insensitively); the segment after the second
/// `/` is the device name where one is required, and its absence is the one
/// parse failure. A path without any `/`, or with an unknown command, becomes
/// a well-formed `Error` command; one named favicon path is ignored.
pub open spec fn parse_command(s: Seq<char>) -> Result<CommandView, ()> {
    let p1 = find_char(s, '/', 0);
    if p1 == s.len() {
        Ok(CommandView::Error { error_msg: "Cannot parse request"@ })
    } else {
        let p2 = find_char(s, '/', p1 + 1);
        let section = lower_seq(trim_seq(s.subrange(p1 + 1, p2)));
        let has_name = p2 < s.len();
        let name = s.subrange(p2 + 1, find_char(s, '/', p2 + 1));
        if section.len() == 0 {
            Ok(CommandView::ShowMain)
        } else if section == "turn_on"@ {
            if has_name {
                Ok(CommandView::TurnOn { device_name: name })
            } else {
                Err(())
            }
        } else if section == "turn_off"@ {
            if has_name {
                Ok(CommandView::TurnOff { device_name: name })
            } else {
                Err(())
            }
        } else if section == "status_all"@ {
            Ok(CommandView::GetStatus)
        } else if section == "status_device"@ {
            if has_name {
                Ok(CommandView::GetDeviceStatus { device_name: name })
            } else {
                Err(())
            }
        } else if section == "flavicon.ico"@ {
            Ok(CommandView::Ignore)
        } else {
            Ok(CommandView::Error { error_msg: "Unknown request"@ })
        }
    }
}

impl Command {
    /// Parses one path; `Err` only when a command that needs a device name
    /// comes without one.
    pub fn parse(s: &str) -> (r: Result<Command, ()>)
        ensures
            ({
                match parse_command(s@) {
                    Ok(v) => r matches Ok(c) && c@ == v,
                    Err(()) => r is Err,
                }
            }),
    {
        let n = s.unicode_len();
        let p1 = find_char_exec(s, '/', 0);
        if p1 == n {
            return Ok(Command::Error { error_msg: "Cannot parse request".to_owned() });
        }
        let p2 = find_char_exec(s, '/', p1 + 1);
        let section = trim(s.substring_char(p1 + 1, p2));
        let has_name = p2 < n;
        let name: String = if has_name {
            let p3 = find_char_exec(s, '/', p2 + 1);
            s.substring_char(p2 + 1, p3).to_owned()
        } else {
            String::new()
        };
        proof {
            assert(lower_seq(section@).len() == section@.len());
        }
        if section.as_str().is_empty() {
            Ok(Command::ShowMain)
        } else if str_eq_lower(section.as_str(), "turn_on") {
            if has_name {
                Ok(Command::TurnOn { device_name: name })
            } else {
                Err(())
            }
        } else if str_eq_lower(section.as_str(), "turn_off") {
            if has_name {
                Ok(Command::TurnOff { device_name: name })
            } else {
                Err(())
            }
        } else if str_eq_lower(section.as_str(), "status_all") {
            Ok(Command::GetStatus)
        } else if str_eq_lower(section.as_str(), "status_device") {
            if has_name {
                Ok(Command::GetDeviceStatus { device_name: name })
            } else {
                Err(())
            }
        } else if str_eq_lower(section.as_str(), "flavicon.ico") {
            Ok(Command::Ignore)
        } else {
            Ok(Command::Error { error_msg: "Unknown request".to_owned() })
        }
    }
}

/// A parsed request line of the path protocol: its method and its command.
#[derive(Debug)]
pub struct Request {
    pub req_type: RequestType,
    pub command: Command,
}

/// Model of a parsed request line.
pub struct RequestLineView {
    pub req_type: RequestType,
    pub command: CommandView,
}

impl View for Request {
    type V = RequestLineView;

    open spec fn view(&self) -> RequestLineView {
        RequestLineView { req_type: self.req_type, command: self.command@ }
    }
}

impl Request {
    pub fn new(req_type: RequestType, command: Command) -> (r: Self)
        ensures
            r.req_type == req_type,
            r.command@ == command@,
    {
        Request { req_type, command }
    }
}

impl Default for Request {
    /// The request assumed when the line carries nothing: fetch the main
    /// page.
    fn default() -> (r: Self)
        ensures
            r.req_type == RequestType::Get,
            r.command@ == CommandView::ShowMain,
    {
        Request { req_type: RequestType::Get, command: Command::ShowMain }
    }
}

/// What a whole request line parses to: the first whitespace-delimited token
/// is the method (`GET` when the line is blank), the second the path (`/`
/// when missing); a failure of either part fails the line.
pub open spec fn parse_request_line(s: Seq<char>) -> Result<RequestLineView, ()> {
    let (a, b) = token_at(s, 0);
    let tok1 = if a < s.len() {
        s.subrange(a, b)
    } else {
        "GET"@
    };
    let c = skip_spaces(s, b);
    let d = token_end(s, c);
    let tok2 = if c < s.len() {
        s.subrange(c, d)
    } else {
        "/"@
    };
    match parse_request_type(tok1) {
        Err(()) => Err(()),
        Ok(rt) => match parse_command(tok2) {
            Err(()) => Err(()),
            Ok(cv) => Ok(RequestLineView { req_type: rt, command: cv }),
        },
    }
}

/// Parses one request line of the path protocol.
pub(crate) fn parse_request_line_exec(request_line: &str) -> (r: Result<Request, ()>)
    ensures
        ({
            match parse_request_line(request_line@) {
                Ok(v) => r matches Ok(req) && req@ == v,
                Err(()) => r is Err,
            }
        }),
{
    proof {
        lemma_scan_bounds(request_line@, 0);
    }
    let (tok1, b) = next_token(request_line, 0);
    proof {
        lemma_scan_bounds(request_line@, b as int);
        let a = skip_spaces(request_line@, 0);
        if a < request_line@.len() {
            lemma_scan_bounds(request_line@, a + 1);
            assert(token_end(request_line@, a) == token_end(request_line@, a + 1));
        }
        let c = skip_spaces(request_line@, b as int);
        if c < request_line@.len() {
            lemma_scan_bounds(request_line@, c + 1);
            assert(token_end(request_line@, c) == token_end(request_line@, c + 1));
        }
    }
    let (tok2, _past) = next_token(request_line, b);
    let method: String = if tok1.as_str().is_empty() {
        "GET".to_owned()
    } else {
        tok1
    };
    let path: String = if tok2.as_str().is_empty() {
        "/".to_owned()
    } else {
        tok2
    };
    let req_type = match RequestType::parse(method.as_str()) {
        Ok(rt) => rt,
        Err(()) => {
            return Err(());
        },
    };
    let command = match Command::parse(path.as_str()) {
        Ok(c) => c,
        Err(()) => {
            return Err(());
        },
    };
    Ok(Request::new(req_type, command))
}

} // verus!
