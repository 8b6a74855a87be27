//! The server side: the identity of a peer that completed a handshake.

use crate::conditional::Conditional;
use crate::dns::{dns_name_of, Name};
use crate::tls::{negotiated, NegotiatedProtocol};
use vstd::prelude::*;
use vstd::string::*;

verus! {

/// The DNS names that `webpki` lists for the certificate with the encoding
/// `der`, in the order of its subject alternative names, and `None` when it
/// cannot parse the certificate or its names.
pub uninterp spec fn cert_dns_names(der: Seq<u8>) -> Option<Seq<Seq<char>>>;

/// The texts of a list of strings.
pub open spec fn texts(names: Seq<String>) -> Seq<Seq<char>> {
    names.map_values(|name: String| name@)
}

/// The encodings of a chain of certificates.
pub open spec fn encodings(chain: Seq<Vec<u8>>) -> Seq<Seq<u8>> {
    chain.map_values(|cert: Vec<u8>| cert@)
}

/// Parses a certificate with `webpki::EndEntityCert::try_from` and lists its
/// DNS names with `EndEntityCert::dns_names`, each as text. The contract only
/// gives the outcome its name, `cert_dns_names`; what the list holds for a
/// given certificate is not claimed.
#[verifier::external_body]
fn leaf_dns_names(der: &[u8]) -> (r: Option<Vec<String>>)
    ensures
        match r {
            Some(names) => cert_dns_names(der@) == Some(texts(names@)),
            None => cert_dns_names(der@) is None,
        },
{
    let cert = webpki::EndEntityCert::try_from(der).ok()?;
    let names = cert.dns_names().ok()?;
    Some(
        names.map(
            |name| {
                let text: &str = name.into();
                text.to_string()
            },
        ).collect(),
    )
}

/// The identity that a client proved with its certificate.
#[derive(Clone, Debug, PartialEq, Eq, Hash)]
pub struct ClientId(pub Name);

/// What a server knows of a connection on which TLS was terminated.
#[derive(Clone, Debug, PartialEq, Eq, Hash)]
pub enum ServerTls {
    /// The handshake completed.
    Established { client_id: Option<ClientId>, negotiated_protocol: Option<NegotiatedProtocol> },
}

/// Why a server did not terminate TLS on a connection.
#[derive(Clone, Copy, Debug, PartialEq, Eq, Hash, Structural)]
pub enum NoServerTls {
    /// Identity is administratively disabled.
    Disabled,
    /// The connection is a loopback connection, which neither needs nor
    /// supports TLS.
    Loopback,
    /// The peer did not open the connection with a TLS handshake.
    NoClientHello,
}

/// Whether TLS was terminated on a connection, and if not, why.
pub type ConditionalServerTls = Conditional<ServerTls, NoServerTls>;

/// What a finished server-side handshake reveals about the session.
#[derive(Clone, Debug, PartialEq, Eq)]
pub struct Session {
    /// The certificate chain that the peer presented, leaf first, each in
    /// its DER encoding.
    pub peer_certificates: Option<Vec<Vec<u8>>>,
    /// The application protocol that was negotiated.
    pub alpn_protocol: Option<Vec<u8>>,
}

/// Whether a name from a certificate stands for a whole set of names.
pub open spec fn is_wildcard(name: Seq<char>) -> bool {
    name.len() > 0 && name[0] == '*'
}

/// The identity that a list of certificate names gives: the normalized first
/// name. An empty list, or a wildcard in first place, gives none.
pub open spec fn identity_of_names(names: Seq<Seq<char>>) -> Option<Seq<char>> {
    if names.len() == 0 || is_wildcard(names[0]) {
        None
    } else {
        dns_name_of(names[0])
    }
}

/// The identity that a certificate chain gives: that of the names of its
/// leaf. No chain, an empty chain, or a leaf that cannot be read gives none.
pub open spec fn identity_of_chain(chain: Option<Seq<Seq<u8>>>) -> Option<Seq<char>> {
    match chain {
        None => None,
        Some(certs) => if certs.len() == 0 {
            None
        } else {
            match cert_dns_names(certs[0]) {
                None => None,
                Some(names) => identity_of_names(names),
            }
        },
    }
}

/// The text of an identity, if there is one.
pub open spec fn id_text(id: Option<ClientId>) -> Option<Seq<char>> {
    match id {
        Some(id) => Some(id.0@),
        None => None,
    }
}

/// The bytes of a protocol name, if there is one.
pub open spec fn protocol_bytes(protocol: Option<NegotiatedProtocol>) -> Option<Seq<u8>> {
    match protocol {
        Some(p) => Some(p.0@),
        None => None,
    }
}

/// The peer identity that the DNS names of a leaf certificate give. Only the
/// first name counts. A wildcard there is not an identity: the peer is then
/// served as one without identity.
pub fn identity_from_names(names: &Vec<String>) -> (id: Option<ClientId>)
    ensures
        id_text(id) == identity_of_names(texts(names@)),
{
    if names.len() == 0 {
        return None;
    }
    let first = names[0].as_str();
    assert(texts(names@)[0] == first@);
    if first.unicode_len() > 0 && first.get_char(0) == '*' {
        return None;
    }
    match Name::from_str(first) {
        Ok(name) => Some(ClientId(name)),
        Err(_) => None,
    }
}

/// The identity of the peer that presented the given certificate chain.
pub fn client_identity(peer_certificates: &Option<Vec<Vec<u8>>>) -> (id: Option<ClientId>)
    ensures
        id_text(id) == identity_of_chain(
            match *peer_certificates {
                Some(chain) => Some(encodings(chain@)),
                None => None,
            },
        ),
{
    let chain = match peer_certificates {
        Some(chain) => chain,
        None => {
            return None;
        },
    };
    if chain.len() == 0 {
        return None;
    }
    assert(encodings(chain@)[0] == chain@[0]@);
    match leaf_dns_names(chain[0].as_slice()) {
        Some(names) => identity_from_names(&names),
        None => None,
    }
}

/// Completes the server side of a handshake. A failed accept is passed on as
/// it is and the connection is not served. After a successful accept the
/// connection is established with the identity that the peer's chain gives
/// and the protocol that was negotiated; a peer without a usable identity is
/// still established.
pub fn handshake<T, E>(accepted: Result<(T, Session), E>) -> (r: Result<(ServerTls, T), E>)
    ensures
        match accepted {
            Err(e) => r == Err::<(ServerTls, T), E>(e),
            Ok((io, session)) => {
                &&& r matches Ok((ServerTls::Established { client_id, negotiated_protocol }, stream))
                &&& stream == io
                &&& id_text(client_id) == identity_of_chain(
                    match session.peer_certificates {
                        Some(chain) => Some(encodings(chain@)),
                        None => None,
                    },
                )
                &&& protocol_bytes(negotiated_protocol) == match session.alpn_protocol {
                    Some(bytes) => Some(bytes@),
                    None => None,
                }
            },
        },
{
    let (io, session) = match accepted {
        Ok(pair) => pair,
        Err(e) => {
            return Err(e);
        },
    };
    let client_id = client_identity(&session.peer_certificates);
    let negotiated_protocol = match &session.alpn_protocol {
        Some(bytes) => negotiated(Some(bytes.as_slice())),
        None => negotiated(None),
    };
    Ok((ServerTls::Established { client_id, negotiated_protocol }, io))
}

/// A leaf certificate whose first name is a wildcard gives the peer no
/// identity, whatever else the leaf and the chain hold.
pub proof fn wildcard_first_name_gives_no_identity(chain: Seq<Seq<u8>>)
    requires
        chain.len() > 0,
    ensures
        (cert_dns_names(chain[0]) matches Some(names) && names.len() > 0 && is_wildcard(names[0]))
            ==> identity_of_chain(Some(chain)) is None,
{
}

} // verus!
