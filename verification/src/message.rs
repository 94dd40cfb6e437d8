//! Requests and responses in flight, as plain values.
//!
//! A message keeps its header lines in the order in which they arrived. A
//! name may occur on several lines: the values of a header are the values of
//! its lines, first to last. Names are compared as they are written; the codec
//! hands them over in lower case.

use vstd::prelude::*;
use vstd::string::*;

verus! {

/// One header line.
#[derive(Clone, Debug, PartialEq, Eq)]
pub struct Header {
    pub name: String,
    pub value: Vec<u8>,
}

/// What a header line holds.
pub struct HeaderView {
    pub name: Seq<char>,
    pub value: Seq<u8>,
}

impl View for Header {
    type V = HeaderView;

    open spec fn view(&self) -> HeaderView {
        HeaderView { name: self.name@, value: self.value@ }
    }
}

impl DeepView for Header {
    type V = HeaderView;

    open spec fn deep_view(&self) -> HeaderView {
        self@
    }
}

/// The values of the lines of `headers` that are named `name`, first to last.
pub open spec fn values_of(headers: Seq<HeaderView>, name: Seq<char>) -> Seq<Seq<u8>>
    decreases headers.len(),
{
    if headers.len() == 0 {
        Seq::empty()
    } else if headers.last().name == name {
        values_of(headers.drop_last(), name).push(headers.last().value)
    } else {
        values_of(headers.drop_last(), name)
    }
}

/// A request on its way from a client to an upstream.
#[derive(Clone, Debug, PartialEq, Eq)]
pub struct Request {
    pub method: String,
    pub target: String,
    pub headers: Vec<Header>,
    pub body: Vec<u8>,
}

/// What a request holds.
pub struct RequestView {
    pub method: Seq<char>,
    pub target: Seq<char>,
    pub headers: Seq<HeaderView>,
    pub body: Seq<u8>,
}

impl RequestView {
    /// The values of the header `name`, first to last.
    pub open spec fn values(self, name: Seq<char>) -> Seq<Seq<u8>> {
        values_of(self.headers, name)
    }

    /// This request with one more line, `name: value`, after its other headers.
    pub open spec fn with_header(self, name: Seq<char>, value: Seq<u8>) -> RequestView {
        RequestView { headers: self.headers.push(HeaderView { name, value }), ..self }
    }
}

impl View for Request {
    type V = RequestView;

    open spec fn view(&self) -> RequestView {
        RequestView {
            method: self.method@,
            target: self.target@,
            headers: self.headers.deep_view(),
            body: self.body@,
        }
    }
}

impl Request {
    /// Adds `value` to the values of the header `name`, after those it has.
    ///
    /// The header is created if the request has none of that name. No line
    /// that is there is changed or removed.
    pub fn extend_header_value(&mut self, name: &str, value: &str)
        ensures
            final(self)@ == old(self)@.with_header(name@, value.spec_bytes()),
            final(self)@.values(name@) == old(self)@.values(name@).push(value.spec_bytes()),
            forall|other: Seq<char>|
                other != name@ ==> #[trigger] final(self)@.values(other) == old(self)@.values(
                    other,
                ),
    {
        let ghost before = self.headers.deep_view();
        let line = Header { name: name.to_owned(), value: value.as_bytes_vec() };
        self.headers.push(line);
        proof {
            let after = self.headers.deep_view();
            assert(after =~= before.push(HeaderView { name: name@, value: value.spec_bytes() }));
            assert(after.drop_last() =~= before);
        }
    }

    /// The values of the header `name`, first to last.
    pub fn header_values(&self, name: &str) -> (values: Vec<Vec<u8>>)
        ensures
            values.deep_view() == self@.values(name@),
    {
        let wanted = name.to_owned();
        let mut values: Vec<Vec<u8>> = Vec::new();
        let mut i: usize = 0;
        assert(self.headers.deep_view().take(0) =~= Seq::empty());
        assert(values.deep_view() =~= Seq::empty());
        while i < self.headers.len()
            invariant
                i <= self.headers.len(),
                wanted@ == name@,
                values.deep_view() == values_of(self.headers.deep_view().take(i as int), name@),
            decreases self.headers.len() - i,
        {
            let ghost lines = self.headers.deep_view();
            let ghost found = values.deep_view();
            assert(lines.take(i + 1).drop_last() =~= lines.take(i as int));
            assert(lines.take(i + 1).last() == self.headers[i as int]@);
            if self.headers[i].name == wanted {
                let value = self.headers[i].value.clone();
                assert(value.deep_view() =~= self.headers[i as int].value@);
                values.push(value);
                assert(values.deep_view() =~= found.push(lines[i as int].value));
            }
            i += 1;
        }
        assert(self.headers.deep_view().take(i as int) =~= self.headers.deep_view());
        values
    }
}

/// A response on its way from an upstream to a client.
#[derive(Clone, Debug, PartialEq, Eq)]
pub struct Response {
    pub status: u16,
    pub headers: Vec<Header>,
    pub body: Vec<u8>,
}

/// What a response holds.
pub struct ResponseView {
    pub status: u16,
    pub headers: Seq<HeaderView>,
    pub body: Seq<u8>,
}

impl View for Response {
    type V = ResponseView;

    open spec fn view(&self) -> ResponseView {
        ResponseView { status: self.status, headers: self.headers.deep_view(), body: self.body@ }
    }
}

} // verus!
