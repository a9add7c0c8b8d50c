//! The header that is put in front of every message, and the protocol name
//! under which throttled peers find each other.

use vstd::prelude::*;

verus! {

/// The most bytes that an encoded header may take.
pub const MAX_HEADER_SIZE: usize = 8192;

/// What a message is.
#[derive(Clone, Copy, Debug, PartialEq, Eq, Structural)]
pub enum Type {
    /// An application request.
    Request,
    /// An application response.
    Response,
    /// A credit grant, sent as a request.
    Credit,
    /// The confirmation of a credit grant, sent as its response.
    Ack,
}

/// The header in front of a message.
#[derive(Clone, Copy, Debug, PartialEq, Eq, Structural)]
pub struct Header {
    /// The type of the message.
    pub typ: Type,
    /// The id of the credit grant that is made or confirmed.
    pub ident: Option<u64>,
    /// The number of requests that a credit grant allows.
    pub credit: Option<u16>,
}

impl Header {
    /// The header of an application request.
    pub open spec fn request() -> Header {
        Header { typ: Type::Request, ident: None, credit: None }
    }

    /// The header of an application response.
    pub open spec fn response() -> Header {
        Header { typ: Type::Response, ident: None, credit: None }
    }

    /// The header of the grant `ident` of `credit` requests.
    pub open spec fn credit(credit: u16, ident: u64) -> Header {
        Header { typ: Type::Credit, ident: Some(ident), credit: Some(credit) }
    }

    /// The header that confirms the grant `ident`.
    pub open spec fn ack(ident: u64) -> Header {
        Header { typ: Type::Ack, ident: Some(ident), credit: None }
    }

    /// The header has the fields that its type calls for and no others:
    /// requests and responses carry neither, a grant carries both, an ack
    /// carries the id alone.
    pub open spec fn well_formed(&self) -> bool {
        match self.typ {
            Type::Request | Type::Response => self.ident is None && self.credit is None,
            Type::Credit => self.ident is Some && self.credit is Some,
            Type::Ack => self.ident is Some && self.credit is None,
        }
    }
}

/// A header, and the payload of those messages that have one.
#[derive(Debug)]
pub struct Message<T> {
    header: Header,
    data: Option<T>,
}

impl<T> Message<T> {
    /// The header, as contracts speak of it.
    pub closed spec fn spec_header(&self) -> Header {
        self.header
    }

    /// The payload, as contracts speak of it.
    pub closed spec fn spec_data(&self) -> Option<T> {
        self.data
    }

    /// An application request with its payload.
    pub fn request(data: T) -> (message: Message<T>)
        ensures
            message.spec_header() == Header::request(),
            message.spec_header().well_formed(),
            message.spec_data() == Some(data),
    {
        Message { header: Header { typ: Type::Request, ident: None, credit: None }, data: Some(data) }
    }

    /// An application response with its payload.
    pub fn response(data: T) -> (message: Message<T>)
        ensures
            message.spec_header() == Header::response(),
            message.spec_header().well_formed(),
            message.spec_data() == Some(data),
    {
        Message {
            header: Header { typ: Type::Response, ident: None, credit: None },
            data: Some(data),
        }
    }

    /// The grant `ident` of `credits` requests. It has no payload.
    pub fn credit(credits: u16, ident: u64) -> (message: Message<T>)
        ensures
            message.spec_header() == Header::credit(credits, ident),
            message.spec_header().well_formed(),
            message.spec_data() is None,
    {
        Message {
            header: Header { typ: Type::Credit, ident: Some(ident), credit: Some(credits) },
            data: None,
        }
    }

    /// The confirmation of the grant `ident`. It has no payload.
    pub fn ack(ident: u64) -> (message: Message<T>)
        ensures
            message.spec_header() == Header::ack(ident),
            message.spec_header().well_formed(),
            message.spec_data() is None,
    {
        Message { header: Header { typ: Type::Ack, ident: Some(ident), credit: None }, data: None }
    }

    /// A message as it was read: the header, and the payload if one could
    /// be decoded.
    pub fn from_parts(header: Header, data: Option<T>) -> (message: Message<T>)
        ensures
            message.spec_header() == header,
            message.spec_data() == data,
    {
        Message { header, data }
    }

    /// The header.
    pub fn header(&self) -> (header: &Header)
        ensures
            *header == self.spec_header(),
    {
        &self.header
    }

    /// Whether the message has a payload.
    pub fn has_data(&self) -> (present: bool)
        ensures
            present == self.spec_data() is Some,
    {
        self.data.is_some()
    }

    /// The header and the payload.
    pub fn into_parts(self) -> (parts: (Header, Option<T>))
        ensures
            parts.0 == self.spec_header(),
            parts.1 == self.spec_data(),
    {
        (self.header, self.data)
    }
}

/// The marker in front of the name of a throttled protocol: `/t/1`.
pub open spec fn protocol_prefix() -> Seq<u8> {
    seq![0x2fu8, 0x74u8, 0x2fu8, 0x31u8]
}

/// The name under which a protocol is offered when it is throttled: the
/// marker `/t/1`, then the protocol's own name. A peer that speaks the
/// protocol without throttling offers another name, and the two do not meet.
pub fn protocol_name(name: &[u8]) -> (full: Vec<u8>)
    ensures
        full@ == protocol_prefix() + name@,
{
    let mut full: Vec<u8> = Vec::new();
    full.push(0x2f);
    full.push(0x74);
    full.push(0x2f);
    full.push(0x31);
    assert(full@ == protocol_prefix());
    let mut i: usize = 0;
    while i < name.len()
        invariant
            i <= name@.len(),
            full@ == protocol_prefix() + name@.take(i as int),
        decreases name@.len() - i,
    {
        full.push(name[i]);
        assert(name@.take(i + 1) == name@.take(i as int).push(name@[i as int]));
        i += 1;
    }
    assert(name@.take(name@.len() as int) == name@);
    full
}

} // verus!
