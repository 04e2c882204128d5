//! The records that a validation pass reads and writes.

use crate::text::{before, lemma_position_is};
use crate::uri_parser::is_recognised;
use vstd::prelude::*;
use vstd::string::StringExecFns;

verus! {

/// Transport protocol of a registered server.
#[derive(Clone, Copy, Debug, PartialEq, Eq, Structural)]
pub enum Protocol {
    Smp,
    Xftp,
    Unknown,
}

/// A registered server, as the registry holds it.
#[derive(Debug)]
pub struct Server {
    pub uuid: String,
    pub protocol: i64,
    pub identity: String,
    pub host: String,
}

/// The result of validating one server, as it is persisted.
#[derive(Debug)]
pub struct ServerStatus<'a> {
    pub server_uuid: &'a str,
    pub status: bool,
    pub country: Option<&'a str>,
    pub info_page_available: bool,
}

/// What a `ServerStatus` says, with its strings as character sequences.
pub struct StatusView {
    pub server_uuid: Seq<char>,
    pub status: bool,
    pub country: Option<Seq<char>>,
    pub info_page_available: bool,
}

impl<'a> View for ServerStatus<'a> {
    type V = StatusView;

    open spec fn view(&self) -> StatusView {
        StatusView {
            server_uuid: self.server_uuid@,
            status: self.status,
            country: match self.country {
                Some(code) => Some(code@),
                None => None,
            },
            info_page_available: self.info_page_available,
        }
    }
}

/// The protocol that a registry code stands for: 1 is SMP, 2 is XFTP, and every
/// other code is unknown.
pub open spec fn protocol_of(code: i64) -> Protocol {
    if code == 1 {
        Protocol::Smp
    } else if code == 2 {
        Protocol::Xftp
    } else {
        Protocol::Unknown
    }
}

/// The scheme that stands for a protocol in a server address.
pub open spec fn scheme(protocol: Protocol) -> Seq<char> {
    match protocol {
        Protocol::Smp => "smp"@,
        Protocol::Xftp => "xftp"@,
        Protocol::Unknown => "unknown"@,
    }
}

/// The address `scheme://identity@host`.
pub open spec fn canonical_uri(protocol: Protocol, identity: Seq<char>, host: Seq<char>) -> Seq<
    char,
> {
    scheme(protocol) + "://"@ + identity + "@"@ + host
}

/// The value of the `Authorization` header that carries `token`.
pub open spec fn bearer(token: Seq<char>) -> Seq<char> {
    "Bearer "@ + token
}

/// No scheme holds a colon, so the scheme of a canonical address is read
/// back from it as the part before its first colon.
pub proof fn lemma_scheme_is_read_back(protocol: Protocol, identity: Seq<char>, host: Seq<char>)
    ensures
        before(canonical_uri(protocol, identity, host), ':') == scheme(protocol),
{
    reveal_strlit("smp");
    reveal_strlit("xftp");
    reveal_strlit("unknown");
    reveal_strlit("://");
    let tag = scheme(protocol);
    let uri = canonical_uri(protocol, identity, host);
    lemma_position_is(uri, ':', tag.len() as int);
}

/// The address of a server has a scheme that is validated if and only if its
/// protocol is known.
pub proof fn lemma_valid_iff_known_protocol(server: Server)
    ensures
        is_recognised(server.uri_view()) <==> server.protocol_kind() != Protocol::Unknown,
{
    lemma_scheme_is_read_back(server.protocol_kind(), server.identity@, server.host@);
    reveal_strlit("smp");
    reveal_strlit("xftp");
    reveal_strlit("unknown");
}

impl Protocol {
    /// The protocol that a registry code stands for.
    pub fn from_code(code: i64) -> (protocol: Protocol)
        ensures
            protocol == protocol_of(code),
    {
        if code == 1 {
            Protocol::Smp
        } else if code == 2 {
            Protocol::Xftp
        } else {
            Protocol::Unknown
        }
    }

    /// The scheme of this protocol.
    pub fn scheme(&self) -> (tag: &'static str)
        ensures
            tag@ == scheme(*self),
    {
        match self {
            Protocol::Smp => "smp",
            Protocol::Xftp => "xftp",
            Protocol::Unknown => "unknown",
        }
    }
}

impl Server {
    /// The protocol of this server.
    pub open spec fn protocol_kind(&self) -> Protocol {
        protocol_of(self.protocol)
    }

    /// The canonical address of this server as a character sequence.
    pub open spec fn uri_view(&self) -> Seq<char> {
        canonical_uri(self.protocol_kind(), self.identity@, self.host@)
    }

    /// The canonical address of this server. It is derived on every call and
    /// never stored.
    pub fn uri(&self) -> (uri: String)
        ensures
            uri@ == self.uri_view(),
    {
        let mut uri = String::from_str(Protocol::from_code(self.protocol).scheme());
        uri.append("://");
        uri.append(self.identity.as_str());
        uri.append("@");
        uri.append(self.host.as_str());
        uri
    }
}

/// The value of the `Authorization` header with which the registry accepts
/// `token`.
pub fn authorization_header(token: &str) -> (value: String)
    ensures
        value@ == bearer(token@),
{
    let mut value = String::from_str("Bearer ");
    value.append(token);
    value
}

} // verus!
