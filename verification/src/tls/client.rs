//! The client side: whether to initiate TLS towards a peer, and what a
//! finished connection attempt amounts to.

use crate::conditional::Conditional;
use crate::dns::{dns_name_of, InvalidName, Name};
use crate::text::{push_shown, shown};
use crate::tls::NegotiatedProtocol;
use vstd::prelude::*;
use vstd::string::*;

verus! {

/// The identity that a server is expected to present.
#[derive(Clone, Debug, PartialEq, Eq, Hash)]
pub struct ServerId(pub Name);

/// The application protocols that a client offers, in order of preference.
#[derive(Clone, Debug, PartialEq, Eq, Hash)]
pub struct AlpnProtocols(pub Vec<Vec<u8>>);

/// What a client needs to know to establish TLS with a server.
#[derive(Clone, Debug, PartialEq, Eq, Hash)]
pub struct ClientTls {
    pub server_id: ServerId,
    pub alpn: Option<AlpnProtocols>,
}

/// Why a client does not use TLS towards a server.
#[derive(Clone, Copy, Debug, PartialEq, Eq, Hash, Structural)]
pub enum NoClientTls {
    /// Identity is administratively disabled.
    Disabled,
    /// The connection is a loopback connection, which neither needs nor
    /// supports TLS.
    Loopback,
    /// Service discovery gave no identity for the endpoint, which tells the
    /// client not to use TLS with it.
    NotProvidedByServiceDiscovery,
    /// No discovery was attempted.
    IngressWithoutOverride,
}

/// Whether the target server has a known TLS identity, and if not, why.
pub type ConditionalClientTls = Conditional<ClientTls, NoClientTls>;

/// One of two kinds of stream behind a single type: the plain transport, or
/// the TLS session on top of it.
#[derive(Debug, PartialEq, Eq)]
pub enum EitherIo<L, R> {
    /// The unencrypted transport stream.
    Left(L),
    /// The stream of an established TLS session.
    Right(R),
}

/// A finished connection: the negotiated protocol, if any, and the stream.
pub type Connected<I> = (Option<NegotiatedProtocol>, I);

/// How one connection attempt proceeds once the transport is connected.
#[derive(Debug)]
pub enum Connect<'a, L> {
    /// The stream is used as it is, without TLS.
    Plaintext(Plaintext),
    /// TLS is initiated with the handshaker, towards the given server.
    Handshake { tls: &'a L, client_tls: ClientTls },
}

/// Why a connection attempt stays unencrypted.
#[derive(Clone, Copy, Debug, PartialEq, Eq, Structural)]
pub enum Plaintext {
    /// The target has no TLS identity, for the reason given.
    NoPeerIdentity(NoClientTls),
    /// This proxy has no identity of its own to present.
    LocalIdentityDisabled,
}

/// Puts TLS initiation in front of a transport connector. `L` is the local
/// handshaker; it is missing when this proxy runs without an identity.
#[derive(Clone, Debug)]
pub struct Client<L> {
    tls: Option<L>,
}

impl<L> Client<L> {
    /// The layer for the given local handshaker.
    pub fn layer(tls: Option<L>) -> (client: Client<L>)
        ensures
            client.tls() == tls,
    {
        Client { tls }
    }

    /// The local handshaker, if this proxy has an identity.
    pub closed spec fn tls(&self) -> Option<L> {
        self.tls
    }

    /// Decides how to connect to a target. TLS is initiated exactly when the
    /// target has an identity and this proxy has one too; in every other case
    /// the transport stream is used unencrypted, which is a regular outcome
    /// and not an error. A missing peer identity takes precedence as the
    /// stated reason.
    pub fn call(&self, target: ConditionalClientTls) -> (plan: Connect<'_, L>)
        ensures
            plan == match (target, self.tls()) {
                (Conditional::Absent(reason), _) => Connect::Plaintext(
                    Plaintext::NoPeerIdentity(reason),
                ),
                (Conditional::Present(_), None) => Connect::Plaintext(
                    Plaintext::LocalIdentityDisabled,
                ),
                (Conditional::Present(client_tls), Some(tls)) => Connect::Handshake {
                    tls: &tls,
                    client_tls,
                },
            },
    {
        let client_tls = match target {
            Conditional::Present(client_tls) => client_tls,
            Conditional::Absent(reason) => {
                return Connect::Plaintext(Plaintext::NoPeerIdentity(reason));
            },
        };
        match &self.tls {
            Some(tls) => Connect::Handshake { tls, client_tls },
            None => Connect::Plaintext(Plaintext::LocalIdentityDisabled),
        }
    }
}

/// The outcome of an attempt that stays unencrypted: the transport stream
/// itself with no negotiated protocol, or the transport's error.
pub fn plaintext<I, J, E>(transport: Result<I, E>) -> (r: Result<Connected<EitherIo<I, J>>, E>)
    ensures
        r == match transport {
            Ok(io) => Ok((None::<NegotiatedProtocol>, EitherIo::<I, J>::Left(io))),
            Err(e) => Err(e),
        },
{
    match transport {
        Ok(io) => Ok((None, EitherIo::Left(io))),
        Err(e) => Err(e),
    }
}

/// The outcome of an attempt that initiates TLS: the session's stream with
/// the protocol that the handshake negotiated, or the error of the transport
/// or of the handshake, whichever failed.
pub fn secured<I, J, E>(handshake: Result<Connected<J>, E>) -> (r: Result<
    Connected<EitherIo<I, J>>,
    E,
>)
    ensures
        r == match handshake {
            Ok((alpn, tls)) => Ok((alpn, EitherIo::<I, J>::Right(tls))),
            Err(e) => Err(e),
        },
{
    match handshake {
        Ok((alpn, tls)) => Ok((alpn, EitherIo::Right(tls))),
        Err(e) => Err(e),
    }
}

impl ServerId {
    /// Parses a server identity from the text of a DNS name.
    pub fn from_str(text: &str) -> (r: Result<ServerId, InvalidName>)
        ensures
            match r {
                Ok(id) => dns_name_of(text@) == Some(id.0@),
                Err(_) => dns_name_of(text@) is None,
            },
    {
        match Name::from_str(text) {
            Ok(name) => Ok(ServerId(name)),
            Err(e) => Err(e),
        }
    }

    /// The name behind this identity.
    pub fn as_ref(&self) -> (name: &Name)
        ensures
            *name == self.0,
    {
        &self.0
    }
}

/// A list of byte strings as they are shown, separated by a comma and a
/// space.
pub open spec fn shown_list(items: Seq<Seq<u8>>) -> Seq<char>
    decreases items.len(),
{
    if items.len() == 0 {
        Seq::empty()
    } else if items.len() == 1 {
        shown(items[0])
    } else {
        shown_list(items.drop_last()) + seq![',', ' '] + shown(items.last())
    }
}

/// The byte strings of a list of protocols.
pub open spec fn protocols(list: Seq<Vec<u8>>) -> Seq<Seq<u8>> {
    list.map_values(|protocol: Vec<u8>| protocol@)
}

impl AlpnProtocols {
    /// The text under which a list of protocols is reported: the name of the
    /// type, followed, unless the list is empty, by the protocols in round
    /// brackets.
    pub open spec fn text(self) -> Seq<char> {
        if self.0@.len() == 0 {
            "AlpnProtocols"@
        } else {
            "AlpnProtocols("@ + shown_list(protocols(self.0@)) + seq![')']
        }
    }

    /// The text under which the list is reported. Each protocol is shown as
    /// quoted text where it is valid UTF-8, and as a list of numbers where it
    /// is not.
    pub fn describe(&self) -> (text: String)
        ensures
            text@ == self.text(),
    {
        if self.0.len() == 0 {
            return String::from_str("AlpnProtocols");
        }
        proof {
            reveal_strlit(", ");
            reveal_strlit(")");
        }
        let mut text = String::from_str("AlpnProtocols(");
        let ghost start = text@;
        let mut i: usize = 0;
        while i < self.0.len()
            invariant
                i <= self.0@.len(),
                text@ == start + shown_list(protocols(self.0@).take(i as int)),
                ", "@ == seq![',', ' '],
            decreases self.0@.len() - i,
        {
            if i > 0 {
                text.append(", ");
            }
            push_shown(&mut text, self.0[i].as_slice());
            proof {
                let all = protocols(self.0@);
                assert(all.take(i + 1).drop_last() == all.take(i as int));
                assert(all.take(i + 1).last() == self.0@[i as int]@);
                assert(text@ =~= start + shown_list(all.take(i + 1)));
            }
            i += 1;
        }
        proof {
            assert(protocols(self.0@).take(i as int) == protocols(self.0@));
        }
        text.append(")");
        assert(text@ =~= self.text());
        text
    }
}

impl NoClientTls {
    /// The label under which this reason is reported.
    pub open spec fn label(self) -> Seq<char> {
        match self {
            NoClientTls::Disabled => "disabled"@,
            NoClientTls::Loopback => "loopback"@,
            NoClientTls::NotProvidedByServiceDiscovery => "not_provided_by_service_discovery"@,
            NoClientTls::IngressWithoutOverride => "ingress_without_override"@,
        }
    }

    /// The label under which this reason is reported. Each reason has a label
    /// of its own.
    pub fn as_str(&self) -> (text: &'static str)
        ensures
            text@ == self.label(),
    {
        match self {
            NoClientTls::Disabled => "disabled",
            NoClientTls::Loopback => "loopback",
            NoClientTls::NotProvidedByServiceDiscovery => "not_provided_by_service_discovery",
            NoClientTls::IngressWithoutOverride => "ingress_without_override",
        }
    }
}

} // verus!
