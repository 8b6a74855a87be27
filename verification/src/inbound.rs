//! The inbound side of the proxy: how its HTTP traffic is labelled, and the
//! raw requests that its HTTP stack is exercised with.

use crate::labels::Labels;
use crate::text::{from_utf8, push_shown, shown};
use vstd::prelude::*;
use vstd::string::*;
use vstd::utf8::{decode_utf8, valid_utf8};

verus! {

/// The labels of the traces of inbound traffic.
pub fn trace_labels() -> (labels: Labels)
    ensures
        labels@ == Map::<Seq<char>, Seq<char>>::empty().insert("direction"@, "inbound"@),
{
    let mut labels = Labels::new();
    labels.insert(String::from_str("direction"), String::from_str("inbound"));
    labels
}

/// A request as raw input: any bytes at all, which may or may not make a
/// request.
#[derive(Clone, PartialEq, Eq)]
pub struct HttpRequestSpec {
    pub uri: Vec<u8>,
    pub header_name: Vec<u8>,
    pub header_value: Vec<u8>,
    pub http_method: bool,
}

/// The method of a request.
#[derive(Clone, Copy, Debug, PartialEq, Eq, Structural)]
pub enum Method {
    Get,
    Post,
}

/// The texts that a request is built from.
#[derive(Clone, Copy, Debug, PartialEq, Eq)]
pub struct RequestParts<'a> {
    pub method: Method,
    pub uri: &'a str,
    pub header_name: &'a str,
    pub header_value: &'a str,
}

impl HttpRequestSpec {
    /// The text under which the input is reported. Each byte string is shown
    /// as quoted text where it is valid UTF-8, and as a list of numbers where
    /// it is not.
    pub open spec fn text(self) -> Seq<char> {
        "HttpRequestSpec { http_method: "@ + (if self.http_method {
            "true"@
        } else {
            "false"@
        }) + ", uri: "@ + shown(self.uri@) + ", header_name: "@ + shown(self.header_name@)
            + ", header_value: "@ + shown(self.header_value@) + " }"@
    }

    /// The text under which the input is reported.
    pub fn describe(&self) -> (text: String)
        ensures
            text@ == self.text(),
    {
        let mut text = String::from_str("HttpRequestSpec { http_method: ");
        if self.http_method {
            text.append("true");
        } else {
            text.append("false");
        }
        text.append(", uri: ");
        push_shown(&mut text, self.uri.as_slice());
        text.append(", header_name: ");
        push_shown(&mut text, self.header_name.as_slice());
        text.append(", header_value: ");
        push_shown(&mut text, self.header_value.as_slice());
        text.append(" }");
        assert(text@ =~= self.text());
        text
    }

    /// The texts of the request that the input stands for. Input makes a
    /// request only when its URI, its header name and its header value are
    /// all valid UTF-8; the method is GET when `http_method` is set, and POST
    /// when it is not.
    pub fn parts(&self) -> (parts: Option<RequestParts<'_>>)
        ensures
            parts is Some <==> valid_utf8(self.uri@) && valid_utf8(self.header_name@)
                && valid_utf8(self.header_value@),
            parts matches Some(parts) ==> {
                &&& parts.method == if self.http_method {
                    Method::Get
                } else {
                    Method::Post
                }
                &&& parts.uri@ == decode_utf8(self.uri@)
                &&& parts.header_name@ == decode_utf8(self.header_name@)
                &&& parts.header_value@ == decode_utf8(self.header_value@)
            },
    {
        let uri = match from_utf8(self.uri.as_slice()) {
            Some(uri) => uri,
            None => {
                return None;
            },
        };
        let header_name = match from_utf8(self.header_name.as_slice()) {
            Some(header_name) => header_name,
            None => {
                return None;
            },
        };
        let header_value = match from_utf8(self.header_value.as_slice()) {
            Some(header_value) => header_value,
            None => {
                return None;
            },
        };
        let method = if self.http_method {
            Method::Get
        } else {
            Method::Post
        };
        Some(RequestParts { method, uri, header_name, header_value })
    }
}

} // verus!
