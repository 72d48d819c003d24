//! The response side of the token protocol. A dispatch result renders as
//! exactly one line: `Ok` bare, `Ok::<payload>`, or `Error::<reason>`. The
//! `::` separator is reserved: payloads and reasons must not contain it (the
//! formatter does not escape), and under that proviso parsing a formatted
//! response gives back exactly the response that was formatted.

use crate::text::{contains_sep, find_sep, lemma_find_sep, sep_at, split_at_sep, str_eq};
use vstd::prelude::*;
use vstd::string::{StrSliceExecFns, StringExecFns};

verus! {

/// A dispatch result: success with an optional payload, or a failure with a
/// reason.
pub enum Response {
    Success { result: Option<String> },
    Error { reason: String },
}

/// Model of a dispatch result.
pub enum ResponseView {
    Success { result: Option<Seq<char>> },
    Error { reason: Seq<char> },
}

impl View for Response {
    type V = ResponseView;

    open spec fn view(&self) -> ResponseView {
        match self {
            Response::Success { result } => ResponseView::Success {
                result: match result {
                    Some(p) => Some(p@),
                    None => None,
                },
            },
            Response::Error { reason } => ResponseView::Error { reason: reason@ },
        }
    }
}

/// The one line a response renders to.
pub open spec fn response_text(r: ResponseView) -> Seq<char> {
    match r {
        ResponseView::Success { result } => match result {
            Some(p) => "Ok::"@ + p,
            None => "Ok"@,
        },
        ResponseView::Error { reason } => "Error::"@ + reason,
    }
}

/// The response a line parses to: the part before the first `::` must read
/// `Ok` or `Error`; the payload runs from there to the next `::` or the end.
/// A line with any other head is no response.
pub open spec fn parse_response(s: Seq<char>) -> Option<ResponseView> {
    let p = find_sep(s, 0);
    let head = s.subrange(0, p);
    if p < s.len() {
        let payload = s.subrange(p + 2, find_sep(s, p + 2));
        if head == "Ok"@ {
            Some(ResponseView::Success { result: Some(payload) })
        } else if head == "Error"@ {
            Some(ResponseView::Error { reason: payload })
        } else {
            None
        }
    } else {
        if head == "Ok"@ {
            Some(ResponseView::Success { result: None })
        } else if head == "Error"@ {
            Some(ResponseView::Error { reason: Seq::empty() })
        } else {
            None
        }
    }
}

impl Response {
    /// Renders the response as its one protocol line, without a line
    /// terminator.
    pub fn format(&self) -> (r: String)
        ensures
            r@ == response_text(self@),
    {
        match self {
            Response::Success { result } => match result {
                Some(p) => {
                    let mut out = "Ok::".to_owned();
                    out.append(p.as_str());
                    out
                },
                None => "Ok".to_owned(),
            },
            Response::Error { reason } => {
                let mut out = "Error::".to_owned();
                out.append(reason.as_str());
                out
            },
        }
    }

    /// Parses one response line; `None` when the head is neither `Ok` nor
    /// `Error`.
    pub fn parse(line: &str) -> (r: Option<Response>)
        ensures
            ({
                match parse_response(line@) {
                    Some(v) => r matches Some(resp) && resp@ == v,
                    None => r is None,
                }
            }),
    {
        let (head, rest) = split_at_sep(line, 0);
        match rest {
            Some(from) => {
                let (payload, _) = split_at_sep(line, from);
                if str_eq(head.as_str(), "Ok") {
                    Some(Response::Success { result: Some(payload) })
                } else if str_eq(head.as_str(), "Error") {
                    Some(Response::Error { reason: payload })
                } else {
                    None
                }
            },
            None => {
                if str_eq(head.as_str(), "Ok") {
                    Some(Response::Success { result: None })
                } else if str_eq(head.as_str(), "Error") {
                    Some(Response::Error { reason: String::new() })
                } else {
                    None
                }
            },
        }
    }
}

/// Round trip: as long as a payload or reason does not contain the reserved
/// `::` separator, parsing a formatted response reconstructs exactly the
/// success or failure, and the payload or reason, that were formatted.
pub proof fn lemma_response_round_trip(r: ResponseView)
    requires
        match r {
            ResponseView::Success { result } => match result {
                Some(p) => !contains_sep(p),
                None => true,
            },
            ResponseView::Error { reason } => !contains_sep(reason),
        },
    ensures
        parse_response(response_text(r)) == Some(r),
{
    reveal_strlit("Ok");
    reveal_strlit("Ok::");
    reveal_strlit("Error");
    reveal_strlit("Error::");
    match r {
        ResponseView::Success { result: Some(p) } => {
            let s = "Ok::"@ + p;
            lemma_find_sep(s, 0);
            assert(sep_at(s, 2));
            assert(!sep_at(s, 0) && !sep_at(s, 1));
            assert(find_sep(s, 0) == 2);
            assert(s.subrange(0, 2) =~= "Ok"@);
            lemma_find_sep(s, 4);
            assert(find_sep(s, 4) == s.len()) by {
                let q = find_sep(s, 4);
                if q < s.len() {
                    assert(sep_at(s, q));
                    assert(sep_at(p, q - 4));
                }
            }
            assert(s.subrange(4, s.len() as int) =~= p);
        },
        ResponseView::Success { result: None } => {
            let s = "Ok"@;
            lemma_find_sep(s, 0);
            assert(find_sep(s, 0) == s.len());
            assert(s.subrange(0, 2) =~= "Ok"@);
        },
        ResponseView::Error { reason } => {
            let s = "Error::"@ + reason;
            lemma_find_sep(s, 0);
            assert(sep_at(s, 5));
            assert(!sep_at(s, 0) && !sep_at(s, 1) && !sep_at(s, 2) && !sep_at(s, 3) && !sep_at(
                s,
                4,
            ));
            assert(find_sep(s, 0) == 5);
            assert(s.subrange(0, 5) =~= "Error"@);
            assert(s.subrange(0, 5) != "Ok"@);
            lemma_find_sep(s, 7);
            assert(find_sep(s, 7) == s.len()) by {
                let q = find_sep(s, 7);
                if q < s.len() {
                    assert(sep_at(s, q));
                    assert(sep_at(reason, q - 7));
                }
            }
            assert(s.subrange(7, s.len() as int) =~= reason);
        },
    }
}

} // verus!
