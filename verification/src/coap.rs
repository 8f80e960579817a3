//! The CoAP-observe handshake between gateway and node. The message-id
//! field of the request does not number the message: it carries the UDP
//! port on which the gateway wants the node's readings.

use crate::client::string_from_utf8;
use crate::Eui;
use vstd::prelude::*;
use vstd::slice::{slice_subrange, slice_to_vec};
use vstd::utf8::{encode_utf8, valid_utf8};

verus! {

/// Number of bytes of an EUI at the head of a registration payload.
pub const EUI_SIZE: usize = 6;

/// Most bytes of a plant name that the gateway keeps.
pub const MAX_PLANT_NAME_SIZE: usize = 20;

/// Milliseconds between two sends of the request while the node answers
/// with empty datagrams.
pub const RETRY_MILLIS: u64 = 500;

/// Seconds after which an unanswered handshake is given up.
pub const DEADLINE_SECS: u64 = 30;

/// The token of every registration request.
pub open spec fn registration_token() -> Seq<u8> {
    seq![0xfau8, 0xce, 0xbe, 0xef]
}

/// The one segment of the path of the resource that a registration
/// observes, `/soilmoisture`.
pub open spec fn observe_segment() -> Seq<u8> {
    seq![0x73u8, 0x6f, 0x69, 0x6c, 0x6d, 0x6f, 0x69, 0x73, 0x74, 0x75, 0x72, 0x65]
}

/// Whether `token` and `segment` can stand in an observing GET as built
/// here: a token of at most eight bytes, and one path segment of one to
/// twelve ASCII bytes, none of them a slash.
pub open spec fn observable(token: Seq<u8>, segment: Seq<u8>) -> bool {
    &&& token.len() <= 8
    &&& 1 <= segment.len() <= 12
    &&& forall|i: int| 0 <= i < segment.len() ==> segment[i] < 0x80 && segment[i] != 0x2f
}

/// The bytes of a confirmable CoAP GET that observes a resource: version
/// 1, type confirmable and the token's length; the code of GET; the
/// message id, high byte first; the token; the Observe option with the
/// empty value that says Register; the Uri-Path option with the segment.
pub open spec fn observe_get_bytes(token: Seq<u8>, segment: Seq<u8>, message_id: u16) -> Seq<u8> {
    seq![(0x40 + token.len()) as u8, 0x01u8, (message_id / 0x100) as u8, (message_id % 0x100) as u8]
        + token + seq![0x60u8, (0x50 + segment.len()) as u8] + segment
}

/// The payload of the CoAP message that `coap_lite` decodes `datagram` to;
/// `None` where it decodes to none.
pub uninterp spec fn coap_payload(datagram: Seq<u8>) -> Option<Seq<u8>>;

/// The type of a CoAP message.
#[derive(Clone, Copy, Debug, PartialEq, Eq, Structural)]
pub enum MessageKind {
    Confirmable,
    NonConfirmable,
    Acknowledgement,
    Reset,
}

/// What a node needs to know of a request.
#[derive(Debug)]
pub struct RequestHead {
    /// The code of the message; 1 is GET.
    pub code: u8,
    /// The value of the Observe option, where the message has one that is
    /// a number; 0 says Register.
    pub observe: Option<u32>,
    /// The message-id field: the port the gateway wants readings on.
    pub message_id: u16,
    /// The type of the message.
    pub kind: MessageKind,
    /// The token of the message.
    pub token: Vec<u8>,
}

/// What a request head holds, for contracts.
pub ghost struct RequestHeadView {
    pub code: u8,
    pub observe: Option<u32>,
    pub message_id: u16,
    pub kind: MessageKind,
    pub token: Seq<u8>,
}

impl View for RequestHead {
    type V = RequestHeadView;

    open spec fn view(&self) -> RequestHeadView {
        RequestHeadView {
            code: self.code,
            observe: self.observe,
            message_id: self.message_id,
            kind: self.kind,
            token: self.token@,
        }
    }
}

/// The head of the CoAP message that `coap_lite` decodes `datagram` to;
/// `None` where it decodes to none.
pub uninterp spec fn request_head(datagram: Seq<u8>) -> Option<RequestHeadView>;

/// Whether a message of this type is answered: requests are, confirmable
/// or not; acknowledgements and resets are not.
pub open spec fn is_answered(kind: MessageKind) -> bool {
    kind == MessageKind::Confirmable || kind == MessageKind::NonConfirmable
}

/// Most bytes of a message that `coap_lite` encodes.
pub const MAX_MESSAGE_SIZE: usize = 1280;

/// Whether a response with this token and payload is within the size that
/// `coap_lite` encodes: header, token, and the payload behind its marker.
pub open spec fn response_fits(token: Seq<u8>, payload: Seq<u8>) -> bool {
    4 + token.len() + payload.len() + (if payload.len() > 0 {
        1int
    } else {
        0int
    }) <= MAX_MESSAGE_SIZE
}

/// The bytes of the response with code 2.05 Content to a request of the
/// given type, token and message id: version 1, the type that answers the
/// request's (an acknowledgement to a confirmable request, else
/// non-confirmable) and the token's length; the code; the message id, high
/// byte first; the token; and the payload behind its marker, if there is a
/// payload.
pub open spec fn response_bytes(
    confirmable: bool,
    token: Seq<u8>,
    message_id: u16,
    payload: Seq<u8>,
) -> Seq<u8> {
    seq![
        ((if confirmable {
            0x60int
        } else {
            0x50int
        }) + token.len()) as u8,
        0x45u8,
        (message_id / 0x100) as u8,
        (message_id % 0x100) as u8,
    ] + token + (if payload.len() > 0 {
        seq![0xffu8] + payload
    } else {
        Seq::<u8>::empty()
    })
}

/// Builds a `coap_lite::CoapRequest` with method GET, the segment as its
/// path, the token, the message id and the Observe option set to
/// Register, and encodes it with `Packet::to_bytes`. For a token and a
/// segment that are `observable`, the encoding cannot fail and gives the
/// bytes of `observe_get_bytes`: the header with the token's length, the
/// two options, each with a delta and a length below thirteen, and no
/// payload. A longer token would make `set_token` panic.
#[verifier::external_body]
fn encode_observe_get(token: &[u8], segment: &[u8], message_id: u16) -> (bytes: Vec<u8>)
    requires
        observable(token@, segment@),
    ensures
        bytes@ == observe_get_bytes(token@, segment@, message_id),
{
    let mut request: coap_lite::CoapRequest<()> = coap_lite::CoapRequest::new();
    request.set_method(coap_lite::RequestType::Get);
    request.set_path(core::str::from_utf8(segment).unwrap_or_default());
    request.message.set_token(token.to_vec());
    request.message.header.message_id = message_id;
    request.set_observe_flag(coap_lite::ObserveOption::Register);
    request.message.to_bytes().unwrap_or_default()
}

/// Decodes `datagram` with `coap_lite::Packet::from_bytes` and hands back
/// the payload of the packet: the one that `coap_payload` names.
#[verifier::external_body]
fn decode_payload(datagram: &[u8]) -> (res: Option<Vec<u8>>)
    ensures
        res matches Some(p) ==> coap_payload(datagram@) == Some(p@),
        res is None ==> coap_payload(datagram@) is None,
{
    coap_lite::Packet::from_bytes(datagram).ok().map(|packet| packet.payload)
}

/// Decodes `datagram` with `coap_lite::Packet::from_bytes` and reads code,
/// Observe value, message id, type and token of the packet: the head that
/// `request_head` names. `from_bytes` refuses a token of more than eight
/// bytes.
#[verifier::external_body]
fn decode_request_head(datagram: &[u8]) -> (res: Option<RequestHead>)
    ensures
        res matches Some(h) ==> request_head(datagram@) == Some(h@) && h.token@.len() <= 8,
        res is None ==> request_head(datagram@) is None,
{
    let packet = coap_lite::Packet::from_bytes(datagram).ok()?;
    let kind = match packet.header.get_type() {
        coap_lite::MessageType::Confirmable => MessageKind::Confirmable,
        coap_lite::MessageType::NonConfirmable => MessageKind::NonConfirmable,
        coap_lite::MessageType::Acknowledgement => MessageKind::Acknowledgement,
        coap_lite::MessageType::Reset => MessageKind::Reset,
    };
    let code = u8::from(packet.header.code);
    let observe = packet.get_observe_value().and_then(|value| value.ok());
    let message_id = packet.header.message_id;
    Some(RequestHead { code, observe, message_id, kind, token: packet.get_token().to_vec() })
}

/// Makes the response to a request of the given type, token and message
/// id with `coap_lite::CoapResponse::new`, sets `payload` and encodes it
/// with `Packet::to_bytes`. There is a response to confirmable and to
/// non-confirmable requests only, and the encoding is refused where the
/// message would exceed `MAX_MESSAGE_SIZE` bytes; otherwise the bytes are
/// those of `response_bytes`. A token of sixteen bytes or more would make
/// `set_token` panic.
#[verifier::external_body]
fn encode_response(
    kind: MessageKind,
    token: &[u8],
    message_id: u16,
    payload: &[u8],
) -> (res: Option<Vec<u8>>)
    requires
        token@.len() <= 8,
    ensures
        res is Some <==> (is_answered(kind) && response_fits(token@, payload@)),
        res matches Some(b) ==> b@ == response_bytes(
            kind == MessageKind::Confirmable,
            token@,
            message_id,
            payload@,
        ),
{
    let mut request = coap_lite::Packet::new();
    request.header.set_type(
        match kind {
            MessageKind::Confirmable => coap_lite::MessageType::Confirmable,
            MessageKind::NonConfirmable => coap_lite::MessageType::NonConfirmable,
            MessageKind::Acknowledgement => coap_lite::MessageType::Acknowledgement,
            MessageKind::Reset => coap_lite::MessageType::Reset,
        },
    );
    request.header.message_id = message_id;
    request.set_token(token.to_vec());
    let mut response = coap_lite::CoapResponse::new(&request)?;
    response.message.payload = payload.to_vec();
    response.message.to_bytes().ok()
}

/// The confirmable GET that observes the resource at the one-segment path
/// `segment`, with the given token and message id; `None` where token or
/// segment cannot stand in such a request.
pub fn observe_get(token: &[u8], segment: &[u8], message_id: u16) -> (res: Option<Vec<u8>>)
    ensures
        res is Some <==> observable(token@, segment@),
        res matches Some(bytes) ==> bytes@ == observe_get_bytes(token@, segment@, message_id),
{
    if token.len() > 8 || segment.len() < 1 || segment.len() > 12 {
        return None;
    }
    let mut i: usize = 0;
    while i < segment.len()
        invariant
            i <= segment@.len(),
            forall|k: int| 0 <= k < i ==> segment@[k] < 0x80 && segment@[k] != 0x2f,
        decreases segment@.len() - i,
    {
        if segment[i] >= 0x80 || segment[i] == 0x2f {
            return None;
        }
        i = i + 1;
    }
    Some(encode_observe_get(token, segment, message_id))
}

/// The request by which the gateway registers as observer of a node and
/// tells it to stream to `port`: a GET of `/soilmoisture` with the Observe
/// option set to Register, the registration token, and `port` in the place
/// of the message id.
pub fn registration_request(port: u16) -> (bytes: Vec<u8>)
    ensures
        bytes@ == observe_get_bytes(registration_token(), observe_segment(), port),
        bytes@.len() == 22,
        bytes@[2] == port / 0x100,
        bytes@[3] == port % 0x100,
{
    let token: [u8; 4] = [0xfa, 0xce, 0xbe, 0xef];
    let segment: [u8; 12] = [0x73, 0x6f, 0x69, 0x6c, 0x6d, 0x6f, 0x69, 0x73, 0x74, 0x75, 0x72, 0x65];
    assert(token@ =~= registration_token());
    assert(segment@ =~= observe_segment());
    encode_observe_get(token.as_slice(), segment.as_slice(), port)
}

/// The EUI at the head of a registration payload.
pub open spec fn payload_eui(payload: Seq<u8>) -> Seq<u8> {
    payload.subrange(0, 6)
}

/// The bytes of the plant name in a registration payload: what follows
/// the EUI, cut after twenty bytes.
pub open spec fn payload_name(payload: Seq<u8>) -> Seq<u8> {
    if payload.len() > 26 {
        payload.subrange(6, 26)
    } else {
        payload.subrange(6, payload.len() as int)
    }
}

/// Parts a registration payload into the node's EUI and the bytes of its
/// plant name. A payload of fewer than six bytes holds no EUI.
pub fn split_registration_payload(payload: &[u8]) -> (res: Option<(Eui, Vec<u8>)>)
    ensures
        res is Some <==> payload@.len() >= 6,
        res matches Some(parts) ==> {
            &&& parts.0@ == payload_eui(payload@)
            &&& parts.1@ == payload_name(payload@)
            &&& parts.1@.len() <= 20
            &&& payload@.len() == 6 ==> parts.1@.len() == 0
            &&& payload@.len() > 26 ==> parts.1@ == payload@.subrange(6, 26)
        },
{
    let n = payload.len();
    if n < 6 {
        return None;
    }
    let eui: Eui = [payload[0], payload[1], payload[2], payload[3], payload[4], payload[5]];
    assert(eui@ =~= payload_eui(payload@));
    let end: usize = if n > 26 {
        26
    } else {
        n
    };
    let mut name: Vec<u8> = Vec::new();
    let mut i: usize = 6;
    while i < end
        invariant
            6 <= i <= end <= n,
            n == payload@.len(),
            name@ == payload@.subrange(6, i as int),
        decreases end - i,
    {
        name.push(payload[i]);
        assert(name@ =~= payload@.subrange(6, i + 1));
        i = i + 1;
    }
    Some((eui, name))
}

/// How many bytes of `name` its text takes: the longest of the four
/// lengths from `name.len()` down that leaves valid UTF-8, or none.
pub open spec fn text_len(name: Seq<u8>) -> int {
    let n = name.len() as int;
    if valid_utf8(name) {
        n
    } else if n >= 1 && valid_utf8(name.subrange(0, n - 1)) {
        n - 1
    } else if n >= 2 && valid_utf8(name.subrange(0, n - 2)) {
        n - 2
    } else if n >= 3 && valid_utf8(name.subrange(0, n - 3)) {
        n - 3
    } else {
        0
    }
}

/// The plant name that the bytes of a registration payload spell. A name
/// cut inside a character loses the cut character; bytes that are no
/// UTF-8 text give the empty name.
pub fn plant_name(name: &Vec<u8>) -> (res: String)
    ensures
        encode_utf8(res@) == name@.subrange(0, text_len(name@)),
{
    let n = name.len();
    let mut cut: usize = 0;
    while cut < 4 && cut <= n
        invariant
            n == name@.len(),
            cut <= 4,
            forall|k: int| 0 <= k < cut && k <= n ==> !valid_utf8(#[trigger] name@.subrange(0, n - k)),
        decreases 4 - cut,
    {
        let part = slice_to_vec(slice_subrange(name.as_slice(), 0, n - cut));
        match string_from_utf8(part) {
            Some(text) => {
                proof {
                    assert(name@.subrange(0, n as int) =~= name@);
                    if cut >= 1 {
                        assert(!valid_utf8(name@.subrange(0, n - 0)));
                    }
                    if cut >= 2 {
                        assert(!valid_utf8(name@.subrange(0, n - 1)));
                    }
                    if cut >= 3 {
                        assert(!valid_utf8(name@.subrange(0, n - 2)));
                    }
                }
                return text;
            },
            None => {},
        }
        cut = cut + 1;
    }
    proof {
        assert(name@.subrange(0, n as int) =~= name@);
        assert(!valid_utf8(name@.subrange(0, n - 0)));
        if n >= 1 {
            assert(!valid_utf8(name@.subrange(0, n - 1)));
        }
        if n >= 2 {
            assert(!valid_utf8(name@.subrange(0, n - 2)));
        }
        if n >= 3 {
            assert(!valid_utf8(name@.subrange(0, n - 3)));
        }
        assert(text_len(name@) == 0);
        assert(name@.subrange(0, 0) =~= Seq::<u8>::empty());
        assert(encode_utf8(Seq::<char>::empty()) =~= Seq::<u8>::empty()) by {
            reveal_with_fuel(encode_utf8, 1);
        }
    }
    String::new()
}

/// What the gateway makes of a datagram that answers its request.
#[derive(Debug)]
pub enum HandshakeReply {
    /// The datagram is empty: the node's radio was idle. Send again after
    /// `RETRY_MILLIS`.
    Resend,
    /// The node registered the gateway; here are its EUI and the bytes of
    /// its plant name.
    Registered(Eui, Vec<u8>),
    /// The datagram is no registration response.
    Malformed,
}

/// The verdict on a decoded response: registered where the payload holds
/// an EUI, malformed where there is no payload or it is too short.
pub fn judge_payload(payload: Option<Vec<u8>>) -> (res: HandshakeReply)
    ensures
        res is Registered <==> (payload matches Some(p) && p@.len() >= 6),
        !(res is Registered) ==> res is Malformed,
        res matches HandshakeReply::Registered(eui, name) ==> {
            &&& eui@ == payload_eui(payload.unwrap()@)
            &&& name@ == payload_name(payload.unwrap()@)
        },
{
    match payload {
        Some(p) => match split_registration_payload(p.as_slice()) {
            Some((eui, name)) => HandshakeReply::Registered(eui, name),
            None => HandshakeReply::Malformed,
        },
        None => HandshakeReply::Malformed,
    }
}

/// What the gateway makes of the datagram `datagram` that answers its
/// registration request.
pub fn handshake_reply(datagram: &[u8]) -> (res: HandshakeReply)
    ensures
        res is Resend <==> datagram@.len() == 0,
        res is Registered <==> datagram@.len() > 0 && (coap_payload(datagram@) matches Some(p)
            && p.len() >= 6),
        res matches HandshakeReply::Registered(eui, name) ==> {
            &&& eui@ == payload_eui(coap_payload(datagram@).unwrap())
            &&& name@ == payload_name(coap_payload(datagram@).unwrap())
        },
{
    if datagram.len() == 0 {
        return HandshakeReply::Resend;
    }
    judge_payload(decode_payload(datagram))
}

/// The payload by which a node answers a registration: its EUI, then the
/// name of its plant.
pub open spec fn registration_payload(eui: Seq<u8>, name: Seq<u8>) -> Seq<u8> {
    eui + name
}

/// Builds the payload by which a node answers a registration.
pub fn build_registration_payload(eui: &Eui, name: &[u8]) -> (payload: Vec<u8>)
    ensures
        payload@ == registration_payload(eui@, name@),
{
    let mut payload: Vec<u8> = Vec::new();
    let mut i: usize = 0;
    while i < 6
        invariant
            i <= 6,
            eui@.len() == 6,
            payload@ == eui@.subrange(0, i as int),
        decreases 6 - i,
    {
        payload.push(eui[i]);
        assert(payload@ =~= eui@.subrange(0, i + 1));
        i = i + 1;
    }
    assert(eui@.subrange(0, 6) =~= eui@);
    i = 0;
    while i < name.len()
        invariant
            i <= name@.len(),
            payload@ == eui@ + name@.subrange(0, i as int),
        decreases name@.len() - i,
    {
        payload.push(name[i]);
        assert(payload@ =~= eui@ + name@.subrange(0, i + 1));
        i = i + 1;
    }
    assert(name@.subrange(0, name@.len() as int) =~= name@);
    payload
}

/// What a node makes of a datagram on its registration port.
#[derive(Debug)]
pub enum ServerReply {
    /// A registration: send `response` to the sender at port `port`, and
    /// stream readings there from now on.
    Register { port: u16, response: Vec<u8> },
    /// No registration; nothing is owed.
    Ignore,
}

/// Whether a message with this head registers an observer: a GET with the
/// Observe option set to Register, of a type that is answered.
pub open spec fn is_registration(head: RequestHeadView) -> bool {
    &&& head.code == 1
    &&& head.observe == Some(0u32)
    &&& is_answered(head.kind)
}

/// What a node with this EUI and plant name owes a message with the head
/// `head`: to a registration, the response whose payload is the EUI and
/// the name, if such a response can be encoded; else nothing.
pub open spec fn reply_for(head: Option<RequestHeadView>, eui: Seq<u8>, name: Seq<u8>) -> Option<
    (u16, Seq<u8>),
> {
    match head {
        Some(h) => if is_registration(h) && h.token.len() <= 8 && response_fits(
            h.token,
            registration_payload(eui, name),
        ) {
            Some(
                (
                    h.message_id,
                    response_bytes(
                        h.kind == MessageKind::Confirmable,
                        h.token,
                        h.message_id,
                        registration_payload(eui, name),
                    ),
                ),
            )
        } else {
            None
        },
        None => None,
    }
}

/// What a node with this EUI and plant name owes a message with the head
/// `head`.
pub fn judge_request(head: Option<RequestHead>, eui: &Eui, name: &[u8]) -> (res: ServerReply)
    ensures
        res is Register <==> reply_for(
            match head {
                Some(h) => Some(h@),
                None => None,
            },
            eui@,
            name@,
        ) is Some,
        res matches ServerReply::Register { port, response } ==> Some((port, response@))
            == reply_for(
            match head {
                Some(h) => Some(h@),
                None => None,
            },
            eui@,
            name@,
        ),
{
    match head {
        Some(h) => {
            let registers = match h.observe {
                Some(value) => value == 0,
                None => false,
            };
            if h.code == 1 && registers && h.token.len() <= 8 {
                let payload = build_registration_payload(eui, name);
                match encode_response(h.kind, h.token.as_slice(), h.message_id, payload.as_slice()) {
                    Some(response) => ServerReply::Register { port: h.message_id, response },
                    None => ServerReply::Ignore,
                }
            } else {
                ServerReply::Ignore
            }
        },
        None => ServerReply::Ignore,
    }
}

/// What a node with this EUI and plant name makes of `datagram`.
pub fn server_reply(datagram: &[u8], eui: &Eui, name: &[u8]) -> (res: ServerReply)
    ensures
        res is Register <==> reply_for(request_head(datagram@), eui@, name@) is Some,
        res matches ServerReply::Register { port, response } ==> Some((port, response@))
            == reply_for(request_head(datagram@), eui@, name@),
{
    judge_request(decode_request_head(datagram), eui, name)
}

/// What happened while the gateway waited for the node's answer.
#[derive(Debug)]
pub enum HandshakeInput {
    /// A datagram arrived on the handshake's socket.
    Datagram(Vec<u8>),
    /// Receiving failed; the text says how.
    RecvError(String),
    /// The deadline of `DEADLINE_SECS` passed.
    Deadline,
}

/// What the gateway does next in a handshake.
#[derive(Debug)]
pub enum HandshakeAction {
    /// Wait `RETRY_MILLIS`, send the request again and go on waiting.
    Resend,
    /// The handshake ended with the node's EUI and the bytes of its plant
    /// name.
    Registered(Eui, Vec<u8>),
    /// The handshake ended without a registration: the node stayed silent
    /// until the deadline, or answered with something else.
    NoResponse,
    /// The handshake ended with an error of the socket.
    Failed(String),
}

/// One decision of the handshake: an empty datagram asks for another send,
/// a registration response ends the handshake with the node's identity,
/// anything else and the deadline end it without, and an error of the
/// socket is passed on.
pub fn handshake_step(input: HandshakeInput) -> (action: HandshakeAction)
    ensures
        match input {
            HandshakeInput::Datagram(datagram) => {
                &&& action is Resend <==> datagram@.len() == 0
                &&& action is Registered <==> datagram@.len() > 0 && (coap_payload(
                    datagram@,
                ) matches Some(p) && p.len() >= 6)
                &&& action matches HandshakeAction::Registered(eui, name) ==> {
                    &&& eui@ == payload_eui(coap_payload(datagram@).unwrap())
                    &&& name@ == payload_name(coap_payload(datagram@).unwrap())
                }
                &&& !(action is Resend) && !(action is Registered) ==> action is NoResponse
            },
            HandshakeInput::RecvError(m) => action == HandshakeAction::Failed(m),
            HandshakeInput::Deadline => action is NoResponse,
        },
{
    match input {
        HandshakeInput::Datagram(datagram) => match handshake_reply(datagram.as_slice()) {
            HandshakeReply::Resend => HandshakeAction::Resend,
            HandshakeReply::Registered(eui, name) => HandshakeAction::Registered(eui, name),
            HandshakeReply::Malformed => HandshakeAction::NoResponse,
        },
        HandshakeInput::RecvError(m) => HandshakeAction::Failed(m),
        HandshakeInput::Deadline => HandshakeAction::NoResponse,
    }
}

} // verus!
