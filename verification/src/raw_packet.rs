//! The packet of the protocol and its wire codec.
//!
//! A frame is, in order: the size (not counting itself), the id and the type, each a
//! signed 32-bit integer in little-endian order; the body as UTF-8; and two zero bytes,
//! one ending the body and one ending the packet.
use crate::error::RconError;
use crate::wire::{
    i32_from_le, le_bytes, le_value, lemma_le_bytes_of_le_value, lemma_le_value_of_le_bytes,
    push_i32,
};
use vstd::prelude::*;
use vstd::std_specs::cmp::PartialEqSpecImpl;
use vstd::slice::{slice_subrange, slice_to_vec};
use vstd::string::StringSliceAdditionalSpecFns;
use vstd::utf8::*;

verus! {

/// The longest body, in bytes, that a packet may carry.
pub const MAX_BODY_LEN: usize = 4086;

/// What the size field counts besides the body: id, type and the two terminators.
pub const SIZE_OVERHEAD: usize = 10;

/// The largest value of a size field.
pub const MAX_SIZE: i32 = 4096;

/// A packet as a mathematical value: the four things a frame carries.
pub struct PacketModel {
    pub size: i32,
    pub id: i32,
    pub kind: i32,
    pub body: Seq<char>,
}

impl PacketModel {
    /// The body as it travels: its UTF-8 encoding.
    pub open spec fn body_bytes(self) -> Seq<u8> {
        encode_utf8(self.body)
    }

    /// The body fits, and the size field is the one that belongs to it.
    pub open spec fn wf(self) -> bool {
        &&& self.body_bytes().len() <= MAX_BODY_LEN
        &&& self.size == self.body_bytes().len() + SIZE_OVERHEAD
    }

    /// The frame of this packet.
    pub open spec fn wire(self) -> Seq<u8> {
        le_bytes(self.size) + le_bytes(self.id) + le_bytes(self.kind) + self.body_bytes()
            + seq![0u8, 0u8]
    }
}

/// The packet with the given id, type and body, and the size that follows from the body.
pub open spec fn packet_of(id: i32, kind: i32, body: Seq<char>) -> PacketModel {
    PacketModel { size: (encode_utf8(body).len() + SIZE_OVERHEAD) as i32, id, kind, body }
}

/// The size field at the head of a byte stream, once it is bounded: no frame is shorter
/// than its fixed parts, and none carries a body longer than `MAX_BODY_LEN`.
pub open spec fn declared_size(stream: Seq<u8>) -> Result<int, RconError> {
    if stream.len() < 4 {
        Err(RconError::IoFailure)
    } else if le_value(stream) < SIZE_OVERHEAD || le_value(stream) > MAX_SIZE {
        Err(RconError::MalformedPacket)
    } else {
        Ok(le_value(stream) as int)
    }
}

/// What a byte stream yields as its first packet.
///
/// The size field is bounded before anything is read on its strength. A stream that ends
/// before the frame does is an `IoFailure`; a body that is not UTF-8 is a
/// `MalformedPacket`. The two bytes after the body have to be there, and are not looked
/// at.
pub open spec fn parse(stream: Seq<u8>) -> Result<PacketModel, RconError> {
    match declared_size(stream) {
        Err(e) => Err(e),
        Ok(size) => if stream.len() < size + 4 {
            Err(RconError::IoFailure)
        } else if !valid_utf8(stream.subrange(12, size + 2)) {
            Err(RconError::MalformedPacket)
        } else {
            Ok(
                PacketModel {
                    size: size as i32,
                    id: le_value(stream.subrange(4, 8)),
                    kind: le_value(stream.subrange(8, 12)),
                    body: decode_utf8(stream.subrange(12, size + 2)),
                },
            )
        },
    }
}

/// The underlying structure of a packet of any type. A packet does not change once it
/// is made, and only the constructors make one: they compute the size from the body.
#[derive(Debug)]
pub struct RawPacket {
    psize: i32,
    pid: i32,
    ptype: i32,
    pbody: String,
}

/// Why a packet could not be created.
#[derive(Debug, Clone, Copy, PartialEq, Eq, Structural)]
pub enum RawPacketCreationError {
    BodyTooLarge,
}

impl RawPacketCreationError {
    /// The error in words.
    pub fn description(&self) -> (text: &'static str)
        ensures
            text@ == "Provided body data is too large."@,
    {
        "Provided body data is too large."
    }

    /// The same failure, as the operations that exchange packets report it.
    pub fn to_io_error(&self) -> (e: RconError)
        ensures
            e == RconError::BodyTooLarge,
    {
        RconError::BodyTooLarge
    }
}

impl View for RawPacket {
    type V = PacketModel;

    closed spec fn view(&self) -> PacketModel {
        PacketModel { size: self.psize, id: self.pid, kind: self.ptype, body: self.pbody@ }
    }
}

impl PartialEq for RawPacket {
    fn eq(&self, other: &RawPacket) -> (equal: bool) {
        self.psize == other.psize && self.pid == other.pid && self.ptype == other.ptype
            && self.pbody == other.pbody
    }
}

impl PartialEqSpecImpl for RawPacket {
    open spec fn obeys_eq_spec() -> bool {
        true
    }

    open spec fn eq_spec(&self, other: &RawPacket) -> bool {
        self@ == other@
    }
}

impl Eq for RawPacket {

}

impl RawPacket {
    #[verifier::type_invariant]
    spec fn well_formed(&self) -> bool {
        self@.wf()
    }

    /// Creates a packet with the size that belongs to `body`. The type may be any number.
    /// Fails if and only if the body is longer than `MAX_BODY_LEN` bytes.
    pub fn new(id: i32, raw_type: i32, body: &str) -> (r: Result<
        RawPacket,
        RawPacketCreationError,
    >)
        ensures
            match r {
                Ok(p) => encode_utf8(body@).len() <= MAX_BODY_LEN && p@ == packet_of(
                    id,
                    raw_type,
                    body@,
                ),
                Err(e) => encode_utf8(body@).len() > MAX_BODY_LEN && e
                    == RawPacketCreationError::BodyTooLarge,
            },
    {
        let len: usize = body.as_bytes().len();
        if len > MAX_BODY_LEN {
            return Err(RawPacketCreationError::BodyTooLarge);
        }
        let psize: i32 = (len + SIZE_OVERHEAD) as i32;
        Ok(RawPacket { psize, pid: id, ptype: raw_type, pbody: body.to_owned() })
    }

    /// The id of the packet.
    pub fn pid(&self) -> (id: i32)
        ensures
            id == self@.id,
    {
        self.pid
    }

    /// The type code of the packet. What it means depends on the direction.
    pub fn ptype(&self) -> (kind: i32)
        ensures
            kind == self@.kind,
    {
        self.ptype
    }

    /// The body of the packet.
    pub fn pbody(&self) -> (body: &str)
        ensures
            body@ == self@.body,
    {
        self.pbody.as_str()
    }

    /// The value of the size field: the length of the body in bytes, and ten.
    pub fn psize(&self) -> (size: i32)
        ensures
            size == self@.size,
            self@.wf(),
    {
        proof {
            use_type_invariant(self);
        }
        self.psize
    }

    /// Gives up the packet for its body.
    pub fn into_body(self) -> (body: String)
        ensures
            body@ == self@.body,
    {
        self.pbody
    }

    /// Appends the frame of this packet to `w`. The frame is four bytes longer than the
    /// size field says, which does not count itself.
    pub fn serialize(&self, w: &mut Vec<u8>)
        ensures
            final(w)@ == old(w)@ + self@.wire(),
            final(w)@.len() == old(w)@.len() + self@.size + 4,
            self@.wf(),
    {
        proof {
            use_type_invariant(self);
        }
        push_i32(w, self.psize);
        push_i32(w, self.pid);
        push_i32(w, self.ptype);
        w.extend_from_slice(self.pbody.as_str().as_bytes());
        w.push(0u8);
        w.push(0u8);
        proof {
            assert(final(w)@ =~= old(w)@ + self@.wire());
        }
    }

    /// Creates a packet of the given logical type: `new` with the code of `ptype`.
    pub fn new_from_type(id: i32, raw_body: &str, ptype: &PacketType) -> (r: Result<
        RawPacket,
        RawPacketCreationError,
    >)
        ensures
            match r {
                Ok(p) => encode_utf8(raw_body@).len() <= MAX_BODY_LEN && p@ == packet_of(
                    id,
                    ptype.code(),
                    raw_body@,
                ),
                Err(e) => encode_utf8(raw_body@).len() > MAX_BODY_LEN && e
                    == RawPacketCreationError::BodyTooLarge,
            },
    {
        Self::new(id, ptype.as_i32(), raw_body)
    }

    /// Creates an authentication request that carries the password `pass`.
    pub fn new_auth(id: i32, pass: &str) -> (r: Result<RawPacket, RawPacketCreationError>)
        ensures
            match r {
                Ok(p) => encode_utf8(pass@).len() <= MAX_BODY_LEN && p@ == packet_of(
                    id,
                    PacketType::RequestAuth.code(),
                    pass@,
                ),
                Err(e) => encode_utf8(pass@).len() > MAX_BODY_LEN && e
                    == RawPacketCreationError::BodyTooLarge,
            },
    {
        Self::new_from_type(id, pass, &PacketType::RequestAuth)
    }

    /// Creates a request to execute `command`.
    pub fn new_exec(id: i32, command: &str) -> (r: Result<RawPacket, RawPacketCreationError>)
        ensures
            match r {
                Ok(p) => encode_utf8(command@).len() <= MAX_BODY_LEN && p@ == packet_of(
                    id,
                    PacketType::RequestExecCommand.code(),
                    command@,
                ),
                Err(e) => encode_utf8(command@).len() > MAX_BODY_LEN && e
                    == RawPacketCreationError::BodyTooLarge,
            },
    {
        Self::new_from_type(id, command, &PacketType::RequestExecCommand)
    }

    /// Creates the answer to an authentication request.
    pub fn new_response_auth(id: i32, value: &str) -> (r: Result<
        RawPacket,
        RawPacketCreationError,
    >)
        ensures
            match r {
                Ok(p) => encode_utf8(value@).len() <= MAX_BODY_LEN && p@ == packet_of(
                    id,
                    PacketType::ResponseAuth.code(),
                    value@,
                ),
                Err(e) => encode_utf8(value@).len() > MAX_BODY_LEN && e
                    == RawPacketCreationError::BodyTooLarge,
            },
    {
        Self::new_from_type(id, value, &PacketType::ResponseAuth)
    }

    /// Creates a response that carries `value`.
    pub fn new_response_value(id: i32, value: &str) -> (r: Result<
        RawPacket,
        RawPacketCreationError,
    >)
        ensures
            match r {
                Ok(p) => encode_utf8(value@).len() <= MAX_BODY_LEN && p@ == packet_of(
                    id,
                    PacketType::ResponseValue.code(),
                    value@,
                ),
                Err(e) => encode_utf8(value@).len() > MAX_BODY_LEN && e
                    == RawPacketCreationError::BodyTooLarge,
            },
    {
        Self::new_from_type(id, value, &PacketType::ResponseValue)
    }

    /// The logical type of the packet, taken as one that a server sent.
    pub fn response_type(&self) -> (t: Option<PacketType>)
        ensures
            t == PacketType::of_response(self@.kind),
    {
        PacketType::from_response_i32(self.ptype)
    }

    /// The logical type of the packet, taken as one that a client sent.
    pub fn request_type(&self) -> (t: Option<PacketType>)
        ensures
            t == PacketType::of_request(self@.kind),
    {
        PacketType::from_request_i32(self.ptype)
    }

    /// Reads the size field at the head of `r` and bounds it. The frame is four bytes
    /// longer than the size: whoever reads from a stream learns here how much to read.
    pub fn read_size(r: &[u8]) -> (res: Result<usize, RconError>)
        ensures
            match res {
                Ok(size) => declared_size(r@) == Ok::<int, RconError>(size as int),
                Err(e) => declared_size(r@) == Err::<int, RconError>(e),
            },
    {
        if r.len() < 4 {
            return Err(RconError::IoFailure);
        }
        let psize: i32 = i32_from_le(r);
        if psize < (SIZE_OVERHEAD as i32) || psize > MAX_SIZE {
            return Err(RconError::MalformedPacket);
        }
        Ok(psize as usize)
    }

    /// Reads the first packet of the byte stream `r`, whatever follows its frame.
    ///
    /// The size field is bounded first, so a peer cannot make this read or allocate more
    /// than a frame of the largest packet. The packet is made by `new`, as any other.
    pub fn deserialize(r: &[u8]) -> (res: Result<RawPacket, RconError>)
        ensures
            match res {
                Ok(p) => parse(r@) == Ok::<PacketModel, RconError>(p@) && p@.wf(),
                Err(e) => parse(r@) == Err::<PacketModel, RconError>(e),
            },
    {
        let size: usize = match Self::read_size(r) {
            Ok(size) => size,
            Err(e) => {
                return Err(e);
            },
        };
        if r.len() < size + 4 {
            return Err(RconError::IoFailure);
        }
        let pid: i32 = i32_from_le(slice_subrange(r, 4, 8));
        let ptype: i32 = i32_from_le(slice_subrange(r, 8, 12));
        // body size is the packet size without id, type and the two terminators
        let body_length: usize = size - SIZE_OVERHEAD;
        let body_buffer: Vec<u8> = slice_to_vec(slice_subrange(r, 12, 12 + body_length));
        let pbody: String = match String::from_utf8(body_buffer) {
            Ok(s) => s,
            Err(_) => {
                return Err(RconError::MalformedPacket);
            },
        };
        proof {
            encode_utf8_decode_utf8(pbody@);
        }
        match RawPacket::new(pid, ptype, pbody.as_str()) {
            Ok(p) => Ok(p),
            Err(e) => Err(e.to_io_error()),
        }
    }
}

/// The four logical types of the protocol.
///
/// No type code says by itself what a packet is: an authentication response and a
/// request to execute share the code 2, and only the direction tells them apart. So there
/// are two classifications, one for packets received from a server and one for packets
/// sent to it.
#[derive(Debug, Clone, Copy, PartialEq, Eq, Structural)]
pub enum PacketType {
    ResponseAuth,
    ResponseValue,
    RequestAuth,
    RequestExecCommand,
}

impl PacketType {
    /// The code of the type on the wire.
    pub open spec fn code(self) -> i32 {
        match self {
            PacketType::ResponseAuth => 2,
            PacketType::ResponseValue => 0,
            PacketType::RequestAuth => 3,
            PacketType::RequestExecCommand => 2,
        }
    }

    /// What the code `raw_id` means on a packet that a server sent.
    pub open spec fn of_response(raw_id: i32) -> Option<PacketType> {
        if raw_id == 0 {
            Some(PacketType::ResponseValue)
        } else if raw_id == 2 {
            Some(PacketType::ResponseAuth)
        } else {
            None
        }
    }

    /// What the code `raw_id` means on a packet that a client sent.
    pub open spec fn of_request(raw_id: i32) -> Option<PacketType> {
        if raw_id == 3 {
            Some(PacketType::RequestAuth)
        } else if raw_id == 2 {
            Some(PacketType::RequestExecCommand)
        } else {
            None
        }
    }

    /// Encodes the type as its code.
    pub fn as_i32(&self) -> (code: i32)
        ensures
            code == self.code(),
    {
        match self {
            PacketType::ResponseAuth => 2,
            PacketType::ResponseValue => 0,
            PacketType::RequestAuth => 3,
            PacketType::RequestExecCommand => 2,
        }
    }

    /// Decodes the code of a packet that a server sent. `None` stands for a code that
    /// names no type in that direction.
    pub fn from_response_i32(raw_id: i32) -> (t: Option<PacketType>)
        ensures
            t == Self::of_response(raw_id),
    {
        if raw_id == 0 {
            return Some(PacketType::ResponseValue);
        }
        if raw_id == 2 {
            return Some(PacketType::ResponseAuth);
        }
        None
    }

    /// Decodes the code of a packet that a client sent. `None` stands for a code that
    /// names no type in that direction.
    pub fn from_request_i32(raw_id: i32) -> (t: Option<PacketType>)
        ensures
            t == Self::of_request(raw_id),
    {
        if raw_id == 3 {
            return Some(PacketType::RequestAuth);
        }
        if raw_id == 2 {
            return Some(PacketType::RequestExecCommand);
        }
        None
    }
}

/// A packet that was serialized reads back as itself, whatever follows it in the stream.
pub proof fn lemma_round_trip(id: i32, kind: i32, body: Seq<char>, rest: Seq<u8>)
    requires
        encode_utf8(body).len() <= MAX_BODY_LEN,
    ensures
        packet_of(id, kind, body).wf(),
        parse(packet_of(id, kind, body).wire() + rest) == Ok::<PacketModel, RconError>(
            packet_of(id, kind, body),
        ),
{
    let p = packet_of(id, kind, body);
    let stream = p.wire() + rest;
    let tail = le_bytes(p.id) + le_bytes(p.kind) + p.body_bytes() + seq![0u8, 0u8] + rest;
    lemma_le_value_of_le_bytes(p.size, tail);
    assert(stream =~= le_bytes(p.size) + tail);
    lemma_le_value_of_le_bytes(p.id, Seq::empty());
    lemma_le_value_of_le_bytes(p.kind, Seq::empty());
    assert(stream.subrange(4, 8) =~= le_bytes(p.id) + Seq::empty());
    assert(stream.subrange(8, 12) =~= le_bytes(p.kind) + Seq::empty());
    assert(stream.subrange(12, p.size + 2) =~= p.body_bytes());
    encode_utf8_valid_utf8(body);
    encode_utf8_decode_utf8(body);
}

/// What reads as a packet is the frame of that packet, but for the two bytes after the
/// body: those may hold anything.
pub proof fn lemma_parse_sound(stream: Seq<u8>)
    requires
        parse(stream) is Ok,
    ensures
        ({
            let p = parse(stream)->Ok_0;
            &&& p.wf()
            &&& stream.len() >= p.size + 4
            &&& stream.subrange(0, p.size + 2) == p.wire().subrange(0, p.size + 2)
        }),
{
    let p = parse(stream)->Ok_0;
    let body = stream.subrange(12, p.size + 2);
    decode_utf8_encode_utf8(body);
    lemma_le_bytes_of_le_value(stream);
    lemma_le_bytes_of_le_value(stream.subrange(4, 8));
    lemma_le_bytes_of_le_value(stream.subrange(8, 12));
    assert(le_bytes(p.size) =~= stream.subrange(0, 4));
    assert(le_bytes(p.id) =~= stream.subrange(4, 8));
    assert(le_bytes(p.kind) =~= stream.subrange(8, 12));
    assert(stream.subrange(0, p.size + 2) =~= p.wire().subrange(0, p.size + 2));
}

} // verus!
