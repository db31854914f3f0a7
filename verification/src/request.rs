//! A request as the proxy reads it: method, target and headers.

use vstd::prelude::*;
use vstd::string::*;
use vstd::utf8::*;
use crate::ascii::{eq_ignore_ascii_case, same_ignoring_case};

verus! {

/// A header of a request: its name and the bytes of its value.
#[derive(Clone, Debug)]
pub struct Header {
    pub name: Vec<u8>,
    pub value: Vec<u8>,
}

impl View for Header {
    type V = (Seq<u8>, Seq<u8>);

    open spec fn view(&self) -> (Seq<u8>, Seq<u8>) {
        (self.name@, self.value@)
    }
}

impl Header {
    /// The header named `name` with the value `value`.
    pub fn new(name: &str, value: &[u8]) -> (header: Header)
        ensures
            header@ == (encode_utf8(name@), value@),
    {
        Header { name: name.as_bytes_vec(), value: vstd::slice::slice_to_vec(value) }
    }
}

/// What the proxy reads of a request. `path` is the path component of `uri`.
/// The body is not read and has no place here.
#[derive(Clone, Debug)]
pub struct Request {
    pub method: String,
    pub uri: String,
    pub path: String,
    pub headers: Vec<Header>,
}

/// A request as plain values.
pub struct RequestView {
    pub method: Seq<char>,
    pub uri: Seq<char>,
    pub path: Seq<char>,
    pub headers: Seq<(Seq<u8>, Seq<u8>)>,
}

impl View for Request {
    type V = RequestView;

    open spec fn view(&self) -> RequestView {
        RequestView {
            method: self.method@,
            uri: self.uri@,
            path: self.path@,
            headers: headers_view(self.headers@),
        }
    }
}

/// Headers as plain values, in their order.
pub open spec fn headers_view(headers: Seq<Header>) -> Seq<(Seq<u8>, Seq<u8>)> {
    Seq::new(headers.len(), |i: int| headers[i]@)
}

/// The header at index `i` is the first one named `name`. Header names are
/// matched without regard to case.
pub open spec fn is_first_named(headers: Seq<(Seq<u8>, Seq<u8>)>, name: Seq<u8>, i: int) -> bool {
    &&& 0 <= i < headers.len()
    &&& same_ignoring_case(headers[i].0, name)
    &&& forall|j: int| 0 <= j < i ==> !same_ignoring_case(#[trigger] headers[j].0, name)
}

/// The value of the first header named `name`, if there is one.
pub open spec fn header_value(headers: Seq<(Seq<u8>, Seq<u8>)>, name: Seq<u8>) -> Option<Seq<u8>> {
    if exists|i: int| is_first_named(headers, name, i) {
        Some(headers[choose|i: int| is_first_named(headers, name, i)].1)
    } else {
        None
    }
}

impl Request {
    /// The request with this method, target and headers, where `path` is
    /// the path of `uri`.
    pub fn new(method: &str, uri: &str, path: &str, headers: Vec<Header>) -> (request: Request)
        ensures
            request@ == (RequestView {
                method: method@,
                uri: uri@,
                path: path@,
                headers: headers_view(headers@),
            }),
    {
        Request {
            method: String::from_str(method),
            uri: String::from_str(uri),
            path: String::from_str(path),
            headers,
        }
    }

    /// The value of the first header named `name`.
    pub fn header(&self, name: &str) -> (r: Option<&[u8]>)
        ensures
            header_bytes(r) == header_value(self@.headers, encode_utf8(name@)),
    {
        find_header(self.headers.as_slice(), name)
    }
}

/// A header value as the bytes it holds.
pub open spec fn header_bytes(header: Option<&[u8]>) -> Option<Seq<u8>> {
    match header {
        Some(value) => Some(value@),
        None => None,
    }
}

/// The value of the first of `headers` named `name`.
pub fn find_header<'a>(headers: &'a [Header], name: &str) -> (r: Option<&'a [u8]>)
    ensures
        header_bytes(r) == header_value(headers_view(headers@), encode_utf8(name@)),
{
    let wanted = name.as_bytes();
    let ghost all = headers_view(headers@);
    let mut i: usize = 0;
    while i < headers.len()
        invariant
            i <= headers.len(),
            wanted@ == encode_utf8(name@),
            all == headers_view(headers@),
            forall|j: int| 0 <= j < i ==> !same_ignoring_case(#[trigger] all[j].0, wanted@),
        decreases headers.len() - i,
    {
        assert(all[i as int] == headers[i as int]@);
        if eq_ignore_ascii_case(headers[i].name.as_slice(), wanted) {
            proof {
                assert(is_first_named(all, wanted@, i as int));
                let k = choose|k: int| is_first_named(all, wanted@, k);
                assert(k == i) by {
                    if k < i {
                        assert(!same_ignoring_case(all[k].0, wanted@));
                    }
                    if i < k {
                        assert(!same_ignoring_case(all[i as int].0, wanted@));
                    }
                }
            }
            return Some(headers[i].value.as_slice());
        }
        i += 1;
    }
    None
}

} // verus!
