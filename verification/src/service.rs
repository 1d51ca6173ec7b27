//! The two services of the node and its calls to other nodes: what is
//! made of the bytes that arrive, and what is sent.
//!
//! Nothing here touches a socket. The program reads and writes; these
//! functions say what the bytes mean and what to answer.

use crate::enums::{Failure, NodeService};
use crate::formats::{ipv4_text, ipv4_to_str_address, Ipv4};
use crate::http::{
    append_bytes, begins_with, message_in, request_bytes, request_mark, response_bytes,
    starts_with, HttpWrapper,
};
use crate::node::{Node, NodeView};
use crate::text::{append_decimal, decimal};
use vstd::prelude::*;
use vstd::slice::slice_subrange;
use vstd::string::*;

verus! {

/// The port of the datagram service.
pub const DATAGRAM_PORT: u16 = 55301;

/// The port of the stream service.
pub const STREAM_PORT: u16 = 55300;

/// The port on which a node takes requests in HTTP.
pub const HTTP_PORT: u16 = 80;

/// The most that is read of one datagram.
pub const DATAGRAM_CAP: usize = 768;

/// The most that is read from one connection.
pub const STREAM_CAP: usize = 4096;

/// The first `cap` bytes of `s`, or all of `s` where it is shorter.
pub open spec fn capped(s: Seq<u8>, cap: int) -> Seq<u8> {
    if s.len() <= cap {
        s
    } else {
        s.subrange(0, cap)
    }
}

/// The text that names a port at an address.
pub open spec fn endpoint_text(address: Seq<u8>, port: nat) -> Seq<char> {
    ipv4_text(address) + ":"@ + decimal(port)
}

/// Something to send, and where to.
#[derive(PartialEq, Debug)]
pub struct Outgoing {
    pub endpoint: String,
    pub payload: Vec<u8>,
}

/// An `Outgoing` as a plain value.
pub struct OutgoingView {
    pub endpoint: Seq<char>,
    pub payload: Seq<u8>,
}

impl View for Outgoing {
    type V = OutgoingView;

    open spec fn view(&self) -> OutgoingView {
        OutgoingView { endpoint: self.endpoint@, payload: self.payload@ }
    }
}

/// What the stream service does with what it read from a connection.
#[derive(PartialEq, Debug)]
pub enum StreamStep {
    /// Too short to be a request: nothing is answered.
    Ignore,
    /// The request is handed to the dispatcher; `tunnelled` says whether it
    /// came in HTTP, and so whether the answer goes back in HTTP.
    Dispatch { inner: Vec<u8>, tunnelled: bool },
    /// The bytes are answered as they are, without the dispatcher.
    Reply(Vec<u8>),
}

/// A `StreamStep` as a plain value.
pub enum StreamStepView {
    Ignore,
    Dispatch { inner: Seq<u8>, tunnelled: bool },
    Reply(Seq<u8>),
}

impl View for StreamStep {
    type V = StreamStepView;

    open spec fn view(&self) -> StreamStepView {
        match self {
            StreamStep::Ignore => StreamStepView::Ignore,
            StreamStep::Dispatch { inner, tunnelled } => StreamStepView::Dispatch {
                inner: inner@,
                tunnelled: *tunnelled,
            },
            StreamStep::Reply(bytes) => StreamStepView::Reply(bytes@),
        }
    }
}

/// What is made of a request: bytes that begin with `POST` are taken as
/// HTTP, whatever follows. The message in them goes to the dispatcher;
/// where what follows is no request with a message in it, the answer is
/// `malformed`, in HTTP. All other bytes go to the dispatcher as they are.
pub open spec fn framed(bytes: Seq<u8>, malformed: Seq<u8>) -> StreamStepView {
    if starts_with(bytes, request_mark()) {
        match message_in(bytes, true) {
            Ok(inner) => StreamStepView::Dispatch { inner, tunnelled: true },
            Err(_) => StreamStepView::Reply(response_bytes(malformed)),
        }
    } else {
        StreamStepView::Dispatch { inner: bytes, tunnelled: false }
    }
}

/// What is made of what was read from a connection: of its first
/// `STREAM_CAP` bytes, nothing where they are four or fewer.
pub open spec fn received(payload: Seq<u8>, malformed: Seq<u8>) -> StreamStepView {
    let seen = capped(payload, STREAM_CAP as int);
    if seen.len() <= 4 {
        StreamStepView::Ignore
    } else {
        framed(seen, malformed)
    }
}

/// The first `cap` bytes of `bytes`.
fn take_capped(bytes: &[u8], cap: usize) -> (seen: &[u8])
    ensures
        seen@ == capped(bytes@, cap as int),
{
    if bytes.len() <= cap {
        bytes
    } else {
        slice_subrange(bytes, 0, cap)
    }
}

/// A copy of `bytes`.
fn copy_of(bytes: &[u8]) -> (copy: Vec<u8>)
    ensures
        copy@ == bytes@,
{
    let mut copy: Vec<u8> = Vec::new();
    append_bytes(&mut copy, bytes);
    assert(copy@ =~= bytes@);
    copy
}

/// The text that names a port at an address.
fn endpoint(address: &Ipv4, port: u16) -> (text: String)
    ensures
        text@ == endpoint_text(address@, port as nat),
{
    let mut text = ipv4_to_str_address(address);
    text.append(":");
    append_decimal(&mut text, port as u64);
    text
}

/// The datagram service.
pub struct Dvsp;

impl Dvsp {
    /// What the dispatcher gets of a datagram: its first `DATAGRAM_CAP`
    /// bytes. What the dispatcher answers goes back as it is.
    pub fn request(datagram: &[u8]) -> (seen: Vec<u8>)
        ensures
            seen@ == capped(datagram@, DATAGRAM_CAP as int),
    {
        copy_of(take_capped(datagram, DATAGRAM_CAP))
    }
}

/// The stream service, and the calls that the node makes over streams.
pub struct Tcp;

impl Tcp {
    /// Decides what to do with what was read from a connection.
    /// `malformed` is the message that tells the sender that its request
    /// could not be read.
    pub fn receive(payload: &[u8], malformed: &[u8]) -> (step: StreamStep)
        ensures
            step@ == received(payload@, malformed@),
    {
        let seen = take_capped(payload, STREAM_CAP);
        if seen.len() > 4 {
            Self::handle_request(seen, malformed)
        } else {
            StreamStep::Ignore
        }
    }

    /// Tells the framing of a request and takes the message out of it.
    pub fn handle_request(bytes: &[u8], malformed: &[u8]) -> (step: StreamStep)
        ensures
            step@ == framed(bytes@, malformed@),
    {
        if begins_with(bytes, "POST".as_bytes()) {
            match HttpWrapper::deserialise_request(bytes) {
                Ok(inner) => StreamStep::Dispatch { inner, tunnelled: true },
                Err(_) => StreamStep::Reply(HttpWrapper::serialise_response_bytes(malformed)),
            }
        } else {
            StreamStep::Dispatch { inner: copy_of(bytes), tunnelled: false }
        }
    }

    /// What goes back over the connection once the dispatcher has
    /// answered: its answer, in HTTP where the request came in HTTP.
    pub fn respond(tunnelled: bool, answer: &[u8]) -> (bytes: Vec<u8>)
        ensures
            bytes@ == if tunnelled {
                response_bytes(answer@)
            } else {
                answer@
            },
    {
        if tunnelled {
            HttpWrapper::serialise_response_bytes(answer)
        } else {
            copy_of(answer)
        }
    }

    /// What to send to a node at `address` to put a request to it, and
    /// where: in HTTP to its HTTP port where `service` is `Http`, and as it
    /// is to its stream port otherwise. A message longer than `STREAM_CAP`
    /// is not sent, neither whole nor in part: it is `InvalidArgument`.
    pub fn make_request(
        packet: &[u8],
        address: &Ipv4,
        host: &str,
        resource: &str,
        service: NodeService,
    ) -> (out: Result<Outgoing, Failure>)
        ensures
            match out {
                Ok(o) => outgoing(
                    packet@,
                    address@,
                    host.spec_bytes(),
                    resource.spec_bytes(),
                    service,
                ) == Ok::<OutgoingView, Failure>(o@),
                Err(e) => outgoing(
                    packet@,
                    address@,
                    host.spec_bytes(),
                    resource.spec_bytes(),
                    service,
                ) == Err::<OutgoingView, Failure>(e),
            },
    {
        if packet.len() > STREAM_CAP {
            return Err(Failure::InvalidArgument);
        }
        Ok(
            match service {
                NodeService::Http => Outgoing {
                    endpoint: endpoint(address, HTTP_PORT),
                    payload: HttpWrapper::serialise_request(packet, host, resource),
                },
                _ => Outgoing {
                    endpoint: endpoint(address, STREAM_PORT),
                    payload: copy_of(packet),
                },
            },
        )
    }

    /// The message in what came back for a request; `read` is `None` where
    /// the connection failed. No answer, or an empty one, is
    /// `InvalidArgument`; an answer in HTTP without a message in it is
    /// `Invalid`.
    pub fn take_response(read: Option<&[u8]>, service: NodeService) -> (message: Result<
        Vec<u8>,
        Failure,
    >)
        ensures
            match message {
                Ok(m) => response_message(read_view(read), service) == Ok::<Seq<u8>, Failure>(m@),
                Err(e) => response_message(read_view(read), service) == Err::<Seq<u8>, Failure>(e),
            },
    {
        let bytes = match read {
            Some(b) => take_capped(b, STREAM_CAP),
            None => {
                return Err(Failure::InvalidArgument);
            },
        };
        if bytes.len() == 0 {
            return Err(Failure::InvalidArgument);
        }
        match service {
            NodeService::Http => HttpWrapper::deserialise_response(bytes),
            _ => Ok(copy_of(bytes)),
        }
    }
}

/// What is written to a node to put a request to it, and where, whatever
/// its length.
pub open spec fn addressed(
    packet: Seq<u8>,
    address: Seq<u8>,
    host: Seq<u8>,
    resource: Seq<u8>,
    service: NodeService,
) -> OutgoingView {
    if service == NodeService::Http {
        OutgoingView {
            endpoint: endpoint_text(address, HTTP_PORT as nat),
            payload: request_bytes(packet, host, resource),
        }
    } else {
        OutgoingView { endpoint: endpoint_text(address, STREAM_PORT as nat), payload: packet }
    }
}

/// What putting a request to a node asks for: `InvalidArgument` where the
/// message is longer than `STREAM_CAP`, and what is written otherwise, in
/// either framing.
pub open spec fn outgoing(
    packet: Seq<u8>,
    address: Seq<u8>,
    host: Seq<u8>,
    resource: Seq<u8>,
    service: NodeService,
) -> Result<OutgoingView, Failure> {
    if packet.len() > STREAM_CAP {
        Err(Failure::InvalidArgument)
    } else {
        Ok(addressed(packet, address, host, resource, service))
    }
}

/// What was read, as a plain value.
pub open spec fn read_view(read: Option<&[u8]>) -> Option<Seq<u8>> {
    match read {
        Some(b) => Some(b@),
        None => None,
    }
}

/// The message in what came back for a request.
pub open spec fn response_message(read: Option<Seq<u8>>, service: NodeService) -> Result<
    Seq<u8>,
    Failure,
> {
    match read {
        None => Err(Failure::InvalidArgument),
        Some(b) => {
            let seen = capped(b, STREAM_CAP as int);
            if seen.len() == 0 {
                Err(Failure::InvalidArgument)
            } else if service == NodeService::Http {
                message_in(seen, false)
            } else {
                Ok(seen)
            }
        },
    }
}

/// What relaying a request to a node asks for: a datagram to its datagram
/// port. Only a node that takes datagrams can be relayed to.
pub open spec fn relay(bytes: Seq<u8>, target: NodeView) -> Result<OutgoingView, Failure> {
    if target.service == NodeService::Dvsp {
        Ok(
            OutgoingView {
                endpoint: endpoint_text(target.address, DATAGRAM_PORT as nat),
                payload: bytes,
            },
        )
    } else {
        Err(Failure::InvalidArgument)
    }
}

/// Decides how a request is relayed to `target`. For a node that does
/// not take datagrams this is `InvalidArgument`, and nothing is to be
/// sent.
pub fn chain_request(bytes: Vec<u8>, target: &Node) -> (out: Result<Outgoing, Failure>)
    ensures
        match out {
            Ok(o) => relay(bytes@, target@) == Ok::<OutgoingView, Failure>(o@),
            Err(e) => relay(bytes@, target@) == Err::<OutgoingView, Failure>(e),
        },
{
    match target.service {
        NodeService::Dvsp => Ok(
            Outgoing { endpoint: endpoint(&target.address, DATAGRAM_PORT), payload: bytes },
        ),
        _ => Err(Failure::InvalidArgument),
    }
}

/// The answer of a node to which a request was relayed: the first
/// `DATAGRAM_CAP` bytes of the one datagram that came back, as they are;
/// `InvalidArgument` where none came, `read` being `None`.
pub fn chain_reply(read: Option<&[u8]>) -> (answer: Result<Vec<u8>, Failure>)
    ensures
        match answer {
            Ok(a) => read matches Some(b) && a@ == capped(b@, DATAGRAM_CAP as int),
            Err(e) => e == Failure::InvalidArgument && read is None,
        },
{
    match read {
        Some(b) => Ok(copy_of(take_capped(b, DATAGRAM_CAP))),
        None => Err(Failure::InvalidArgument),
    }
}

/// Of what is read from a connection, four bytes or fewer are never
/// answered, and five or more always lead to the dispatcher or to an
/// answer. Bytes that begin with `POST` and are no request in HTTP with a
/// message in it are answered with `malformed`, in HTTP.
pub proof fn lemma_stream_framing(payload: Seq<u8>, malformed: Seq<u8>)
    ensures
        received(payload, malformed) is Ignore <==> payload.len() <= 4,
        payload.len() > 4 && starts_with(capped(payload, STREAM_CAP as int), request_mark())
            && message_in(capped(payload, STREAM_CAP as int), true) is Err ==> received(
            payload,
            malformed,
        ) == StreamStepView::Reply(response_bytes(malformed)),
{
}

/// The dispatcher never gets more of a datagram than `DATAGRAM_CAP` bytes,
/// and what it gets is the start of what was sent.
pub proof fn lemma_datagram_cap(sent: Seq<u8>)
    ensures
        capped(sent, DATAGRAM_CAP as int).len() <= DATAGRAM_CAP,
        capped(sent, DATAGRAM_CAP as int).len() <= sent.len(),
        capped(sent, DATAGRAM_CAP as int) == sent.subrange(
            0,
            capped(sent, DATAGRAM_CAP as int).len() as int,
        ),
{
    assert(sent.subrange(0, sent.len() as int) =~= sent);
}

/// A message longer than `STREAM_CAP` is never sent, in whatever framing,
/// and every other message is.
pub proof fn lemma_oversized_is_rejected(
    packet: Seq<u8>,
    address: Seq<u8>,
    host: Seq<u8>,
    resource: Seq<u8>,
    service: NodeService,
)
    ensures
        packet.len() > STREAM_CAP ==> outgoing(packet, address, host, resource, service) == Err::<
            OutgoingView,
            Failure,
        >(Failure::InvalidArgument),
        packet.len() <= STREAM_CAP ==> outgoing(packet, address, host, resource, service) == Ok::<
            OutgoingView,
            Failure,
        >(addressed(packet, address, host, resource, service)),
{
}

/// A message that is sent as it is, and comes back as it was sent, is
/// taken back as it is. A message of no bytes is left out: nothing read
/// counts as no answer.
pub proof fn lemma_raw_echo(
    packet: Seq<u8>,
    address: Seq<u8>,
    host: Seq<u8>,
    resource: Seq<u8>,
    service: NodeService,
)
    requires
        service != NodeService::Http,
        0 < packet.len() <= STREAM_CAP,
    ensures
        outgoing(packet, address, host, resource, service) is Ok,
        outgoing(packet, address, host, resource, service)->Ok_0.payload == packet,
        response_message(Some(packet), service) == Ok::<Seq<u8>, Failure>(packet),
{
}

/// A message that was wrapped in a request and is read from a connection
/// whole goes to the dispatcher as it was, and the answer goes back in
/// HTTP; a message that was wrapped in a reply is taken out of it again.
/// The host and the resource must hold no carriage return.
pub proof fn lemma_tunnelled_request(
    message: Seq<u8>,
    host: Seq<u8>,
    resource: Seq<u8>,
    malformed: Seq<u8>,
)
    requires
        crate::http::cr_free(host),
        crate::http::cr_free(resource),
    ensures
        framed(request_bytes(message, host, resource), malformed) == (StreamStepView::Dispatch {
            inner: message,
            tunnelled: true,
        }),
        request_bytes(message, host, resource).len() <= STREAM_CAP ==> received(
            request_bytes(message, host, resource),
            malformed,
        ) == (StreamStepView::Dispatch { inner: message, tunnelled: true }),
        0 < response_bytes(message).len() <= STREAM_CAP ==> response_message(
            Some(response_bytes(message)),
            NodeService::Http,
        ) == Ok::<Seq<u8>, Failure>(message),
{
    crate::http::lemma_request_round_trip(message, host, resource);
    crate::http::lemma_response_round_trip(message);
}

} // verus!
