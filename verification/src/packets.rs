//! The request types of the protocol, the packet header, and the packets the
//! server sends, each with its exact bytes on the wire.
use vstd::prelude::*;
use crate::misc::ByteCount;
use crate::wire::{
    DecodeError, i16_le, i32_le, i64_le, length_string, length_string_fits,
    length_string_fits_wire, put_i16_le, put_i32_le, put_i64_le, put_length_string, put_u16_le,
    put_u32_le, put_u8, read_u16_le_at, read_u32_le_at, u16_from_le, u16_le, u32_from_le, u32_le,
    lemma_u16_le_roundtrip, lemma_u32_le_roundtrip,
};

verus! {

/// The kind of a packet, by the number that stands for it on the wire.
#[derive(Debug, Clone, Copy, PartialEq, Eq, Structural)]
pub enum RequestType {
    /// Id: 0
    OsuSendUserStatus,
    /// Id: 1
    OsuSendIrcMessage,
    /// Id: 2
    OsuExit,
    /// Id: 3
    OsuRequestStatusUpdate,
    /// Id: 4
    OsuPong,
    /// Id: 5
    BanchoLoginReply,
    /// Id: 11
    BanchoHandleOsuUpdate,
    /// Id: 7
    BanchoSendMessage,
    /// Id: 8
    BanchoPing,
    /// Id: 24
    BanchoAnnounce,
    /// Id: 64
    BanchoChannelJoinSuccess,
    /// Id: 68
    OsuBeatmapInfoRequest,
    /// Id: 79
    OsuReceiveUpdates,
    /// Id: 83
    BanchoUserPresence,
    /// Id: 85
    OsuUserStatsRequest,
    /// Id: 86
    BanchoRestart,
}

impl RequestType {
    /// The number that stands for the request type on the wire.
    pub open spec fn spec_id(self) -> u16 {
        match self {
            RequestType::OsuSendUserStatus => 0,
            RequestType::OsuSendIrcMessage => 1,
            RequestType::OsuExit => 2,
            RequestType::OsuRequestStatusUpdate => 3,
            RequestType::OsuPong => 4,
            RequestType::BanchoLoginReply => 5,
            RequestType::BanchoHandleOsuUpdate => 11,
            RequestType::BanchoSendMessage => 7,
            RequestType::BanchoPing => 8,
            RequestType::BanchoAnnounce => 24,
            RequestType::BanchoChannelJoinSuccess => 64,
            RequestType::OsuBeatmapInfoRequest => 68,
            RequestType::OsuReceiveUpdates => 79,
            RequestType::BanchoUserPresence => 83,
            RequestType::OsuUserStatsRequest => 85,
            RequestType::BanchoRestart => 86,
        }
    }

    /// The request type that `v` stands for on the wire, if any.
    pub open spec fn spec_from_id(v: u16) -> Option<RequestType> {
        if v == 0 {
            Some(RequestType::OsuSendUserStatus)
        } else if v == 1 {
            Some(RequestType::OsuSendIrcMessage)
        } else if v == 2 {
            Some(RequestType::OsuExit)
        } else if v == 3 {
            Some(RequestType::OsuRequestStatusUpdate)
        } else if v == 4 {
            Some(RequestType::OsuPong)
        } else if v == 5 {
            Some(RequestType::BanchoLoginReply)
        } else if v == 11 {
            Some(RequestType::BanchoHandleOsuUpdate)
        } else if v == 7 {
            Some(RequestType::BanchoSendMessage)
        } else if v == 8 {
            Some(RequestType::BanchoPing)
        } else if v == 24 {
            Some(RequestType::BanchoAnnounce)
        } else if v == 64 {
            Some(RequestType::BanchoChannelJoinSuccess)
        } else if v == 68 {
            Some(RequestType::OsuBeatmapInfoRequest)
        } else if v == 79 {
            Some(RequestType::OsuReceiveUpdates)
        } else if v == 83 {
            Some(RequestType::BanchoUserPresence)
        } else if v == 85 {
            Some(RequestType::OsuUserStatsRequest)
        } else if v == 86 {
            Some(RequestType::BanchoRestart)
        } else {
            None
        }
    }

    /// The number that stands for the request type on the wire.
    pub fn id(self) -> (v: u16)
        ensures
            v == self.spec_id(),
    {
        match self {
            RequestType::OsuSendUserStatus => 0,
            RequestType::OsuSendIrcMessage => 1,
            RequestType::OsuExit => 2,
            RequestType::OsuRequestStatusUpdate => 3,
            RequestType::OsuPong => 4,
            RequestType::BanchoLoginReply => 5,
            RequestType::BanchoHandleOsuUpdate => 11,
            RequestType::BanchoSendMessage => 7,
            RequestType::BanchoPing => 8,
            RequestType::BanchoAnnounce => 24,
            RequestType::BanchoChannelJoinSuccess => 64,
            RequestType::OsuBeatmapInfoRequest => 68,
            RequestType::OsuReceiveUpdates => 79,
            RequestType::BanchoUserPresence => 83,
            RequestType::OsuUserStatsRequest => 85,
            RequestType::BanchoRestart => 86,
        }
    }

    /// The request type that `v` stands for on the wire; an error names a number
    /// that stands for none.
    pub fn try_from_id(v: u16) -> (r: Result<RequestType, DecodeError>)
        ensures
            match RequestType::spec_from_id(v) {
                Some(t) => r == Ok::<RequestType, DecodeError>(t),
                None => r == Err::<RequestType, DecodeError>(
                    DecodeError::UnknownRequestType { value: v },
                ),
            },
    {
        if v == 0 {
            Ok(RequestType::OsuSendUserStatus)
        } else if v == 1 {
            Ok(RequestType::OsuSendIrcMessage)
        } else if v == 2 {
            Ok(RequestType::OsuExit)
        } else if v == 3 {
            Ok(RequestType::OsuRequestStatusUpdate)
        } else if v == 4 {
            Ok(RequestType::OsuPong)
        } else if v == 5 {
            Ok(RequestType::BanchoLoginReply)
        } else if v == 11 {
            Ok(RequestType::BanchoHandleOsuUpdate)
        } else if v == 7 {
            Ok(RequestType::BanchoSendMessage)
        } else if v == 8 {
            Ok(RequestType::BanchoPing)
        } else if v == 24 {
            Ok(RequestType::BanchoAnnounce)
        } else if v == 64 {
            Ok(RequestType::BanchoChannelJoinSuccess)
        } else if v == 68 {
            Ok(RequestType::OsuBeatmapInfoRequest)
        } else if v == 79 {
            Ok(RequestType::OsuReceiveUpdates)
        } else if v == 83 {
            Ok(RequestType::BanchoUserPresence)
        } else if v == 85 {
            Ok(RequestType::OsuUserStatsRequest)
        } else if v == 86 {
            Ok(RequestType::BanchoRestart)
        } else {
            Err(DecodeError::UnknownRequestType { value: v })
        }
    }
}

/// Every request type is found again from its number, and a number that stands
/// for a request type is that type's number: no two types share a number.
pub proof fn lemma_request_type_id_roundtrip(t: RequestType, v: u16)
    ensures
        RequestType::spec_from_id(t.spec_id()) == Some(t),
        RequestType::spec_from_id(v) matches Some(u) ==> u.spec_id() == v,
{
}

/// Exactly the numbers 0, 1, 2, 3, 4, 5, 7, 8, 11, 24, 64, 68, 79, 83, 85 and 86
/// stand for a request type; two bytes written for a type's number decode to
/// that type, and any other number is refused as unknown.
pub proof fn lemma_request_type_numbers(v: u16, t: RequestType, rest: Seq<u8>)
    ensures
        RequestType::spec_from_id(v) is Some <==> (v == 0 || v == 1 || v == 2 || v == 3 || v == 4
            || v == 5 || v == 7 || v == 8 || v == 11 || v == 24 || v == 64 || v == 68 || v == 79
            || v == 83 || v == 85 || v == 86),
        spec_decode_request_type(u16_le(t.spec_id()) + rest) == Ok::<_, DecodeError>((t, 2nat)),
        RequestType::spec_from_id(v) is None ==> spec_decode_request_type(u16_le(v) + rest)
            == Err::<(RequestType, nat), _>(DecodeError::UnknownRequestType { value: v }),
{
    let b = u16_le(t.spec_id()) + rest;
    lemma_u16_le_roundtrip(t.spec_id());
    assert(b[0] == u16_le(t.spec_id())[0] && b[1] == u16_le(t.spec_id())[1]);
    assert(u16_from_le(b) == u16_from_le(u16_le(t.spec_id())));
    let c = u16_le(v) + rest;
    lemma_u16_le_roundtrip(v);
    assert(c[0] == u16_le(v)[0] && c[1] == u16_le(v)[1]);
    assert(u16_from_le(c) == u16_from_le(u16_le(v)));
}

/// The header in front of every packet: its type's number and the length of the
/// payload that follows.
#[derive(Debug, Clone, Copy, PartialEq, Eq, Structural)]
pub struct Header {
    pub read_type: u16,
    pub length: u32,
}

/// The seven header bytes: the type's number, an unused zero byte, the length.
pub open spec fn header_bytes(h: Header) -> Seq<u8> {
    u16_le(h.read_type) + seq![0u8] + u32_le(h.length)
}

/// The header a packet of type `t` with `payload` carries; the length is the
/// payload's length cut to 32 bits.
pub open spec fn packet_header(t: RequestType, payload: Seq<u8>) -> Header {
    Header { read_type: t.spec_id(), length: payload.len() as u32 }
}

/// A whole packet of type `t`: its header, then its payload.
pub open spec fn packet_bytes(t: RequestType, payload: Seq<u8>) -> Seq<u8> {
    header_bytes(packet_header(t, payload)) + payload
}

/// What a header at the start of `b` decodes to, and how many bytes it takes.
pub open spec fn spec_decode_header(b: Seq<u8>) -> Result<(Header, nat), DecodeError> {
    if b.len() < 7 {
        Err(DecodeError::Incomplete { needed: 7 })
    } else {
        Ok((Header { read_type: u16_from_le(b), length: u32_from_le(b.subrange(3, 7)) }, 7))
    }
}

/// What the type number at the start of `b` stands for, and how many bytes it takes.
pub open spec fn spec_decode_request_type(b: Seq<u8>) -> Result<(RequestType, nat), DecodeError> {
    if b.len() < 2 {
        Err(DecodeError::Incomplete { needed: 2 })
    } else {
        match RequestType::spec_from_id(u16_from_le(b)) {
            Some(t) => Ok((t, 2)),
            None => Err(DecodeError::UnknownRequestType { value: u16_from_le(b) }),
        }
    }
}

/// Decodes the header at the start of `buf`.
pub fn decode_header(buf: &[u8]) -> (r: Result<(Header, usize), DecodeError>)
    ensures
        match r {
            Ok((h, n)) => spec_decode_header(buf@) == Ok::<_, DecodeError>((h, n as nat)),
            Err(e) => spec_decode_header(buf@) == Err::<(Header, nat), _>(e),
        },
{
    if buf.len() < 7 {
        return Err(DecodeError::Incomplete { needed: 7 });
    }
    let read_type = read_u16_le_at(buf, 0);
    let length = read_u32_le_at(buf, 3);
    assert(buf@.subrange(0, 2)[0] == buf@[0] && buf@.subrange(0, 2)[1] == buf@[1]);
    Ok((Header { read_type, length }, 7))
}

/// Decodes the type number at the start of `buf` into the request type it stands for.
pub fn decode_request_type(buf: &[u8]) -> (r: Result<(RequestType, usize), DecodeError>)
    ensures
        match r {
            Ok((t, n)) => spec_decode_request_type(buf@) == Ok::<_, DecodeError>((t, n as nat)),
            Err(e) => spec_decode_request_type(buf@) == Err::<(RequestType, nat), _>(e),
        },
{
    if buf.len() < 2 {
        return Err(DecodeError::Incomplete { needed: 2 });
    }
    let v = read_u16_le_at(buf, 0);
    assert(buf@.subrange(0, 2)[0] == buf@[0] && buf@.subrange(0, 2)[1] == buf@[1]);
    match RequestType::try_from_id(v) {
        Ok(t) => Ok((t, 2)),
        Err(e) => Err(e),
    }
}

/// Anything written as a sequence of bytes.
pub trait WriteToBinaryStream {
    /// Whether every length-prefixed string in the value is short enough to be written.
    spec fn wire_ok(&self) -> bool;

    /// The bytes the value is written as.
    spec fn wire_bytes(&self) -> Seq<u8>;

    /// Whether the value can be written.
    fn fits_wire(&self) -> (r: bool)
        ensures
            r == self.wire_ok(),
    ;

    /// Appends the value's bytes to `out`.
    fn write_to(&self, out: &mut Vec<u8>)
        requires
            self.wire_ok(),
        ensures
            final(out)@ == old(out)@ + self.wire_bytes(),
    ;
}

impl WriteToBinaryStream for Header {
    open spec fn wire_ok(&self) -> bool {
        true
    }

    open spec fn wire_bytes(&self) -> Seq<u8> {
        header_bytes(*self)
    }

    fn fits_wire(&self) -> (r: bool) {
        true
    }

    fn write_to(&self, out: &mut Vec<u8>) {
        put_u16_le(out, self.read_type);
        put_u8(out, 0);
        put_u32_le(out, self.length);
        assert(out@ =~= old(out)@ + header_bytes(*self));
    }
}

/// Reading back the seven bytes written for a header gives that header, whatever
/// follows; and the header and type decoders, once decided, do not change with
/// bytes that arrive later.
pub proof fn lemma_header_roundtrip(h: Header, rest: Seq<u8>, b: Seq<u8>, more: Seq<u8>)
    ensures
        spec_decode_header(header_bytes(h) + rest) == Ok::<_, DecodeError>((h, 7nat)),
        spec_decode_header(b) matches Err(DecodeError::Incomplete { needed }) ==> needed > b.len(),
        spec_decode_header(b) is Ok ==> spec_decode_header(b + more) == spec_decode_header(b),
        spec_decode_request_type(b) matches Err(DecodeError::Incomplete { needed }) ==> needed
            > b.len(),
        spec_decode_request_type(b) is Ok || (spec_decode_request_type(b) is Err
            && spec_decode_request_type(b)->Err_0 is UnknownRequestType)
            ==> spec_decode_request_type(b + more) == spec_decode_request_type(b),
{
    let x = header_bytes(h) + rest;
    lemma_u16_le_roundtrip(h.read_type);
    lemma_u32_le_roundtrip(h.length);
    assert(x[0] == u16_le(h.read_type)[0] && x[1] == u16_le(h.read_type)[1]);
    assert(u16_from_le(x) == u16_from_le(u16_le(h.read_type)));
    assert(x.subrange(3, 7) =~= u32_le(h.length));
    let c = b + more;
    if b.len() >= 2 {
        assert(c[0] == b[0] && c[1] == b[1]);
        assert(u16_from_le(c) == u16_from_le(b));
    }
    if b.len() >= 7 {
        assert(c.subrange(3, 7) =~= b.subrange(3, 7));
    }
}

/// Reading the header of any packet back gives its type's number and its
/// payload's length (cut to 32 bits), and the payload follows the seven header bytes.
pub proof fn lemma_packet_framing(t: RequestType, payload: Seq<u8>, rest: Seq<u8>)
    ensures
        spec_decode_header(packet_bytes(t, payload) + rest) == Ok::<_, DecodeError>(
            (Header { read_type: t.spec_id(), length: payload.len() as u32 }, 7nat),
        ),
        (packet_bytes(t, payload) + rest).subrange(7, 7 + payload.len() as int) == payload,
        packet_bytes(t, payload).len() == 7 + payload.len(),
{
    let h = packet_header(t, payload);
    let b = packet_bytes(t, payload) + rest;
    lemma_u16_le_roundtrip(h.read_type);
    lemma_u32_le_roundtrip(h.length);
    assert(b.subrange(0, 2) =~= u16_le(h.read_type));
    assert(b.subrange(3, 7) =~= u32_le(h.length));
    assert(b[0] == u16_le(h.read_type)[0] && b[1] == u16_le(h.read_type)[1]);
    assert(u16_from_le(b) == u16_from_le(u16_le(h.read_type)));
    assert(b.subrange(7, 7 + payload.len() as int) =~= payload);
}


/// What a player is doing, as shown to others.
#[derive(Debug, PartialEq)]
pub struct StatusUpdate {
    pub status: u8,
    pub status_text: String,
    pub beatmap_checksum: String,
    pub current_mods: i16,
    pub play_mode: u8,
    pub beatmap_id: i32,
}

impl StatusUpdate {
    /// The status's bytes on the wire, field after field.
    pub open spec fn payload(&self) -> Seq<u8> {
        seq![self.status] + length_string(self.status_text@) + length_string(
            self.beatmap_checksum@,
        ) + i16_le(self.current_mods) + seq![self.play_mode] + i32_le(self.beatmap_id)
    }

    /// Whether both texts are short enough to be written.
    pub open spec fn wire_ok(&self) -> bool {
        length_string_fits(self.status_text@) && length_string_fits(self.beatmap_checksum@)
    }

    /// The status the server reports for every player: playing, with the text
    /// "I am gaming", no beatmap ("-1"), no mods, the standard mode.
    pub fn gaming() -> (s: StatusUpdate)
        ensures
            s.status == 0,
            s.status_text@ == "I am gaming"@,
            s.beatmap_checksum@ == "-1"@,
            s.current_mods == 0,
            s.play_mode == 0,
            s.beatmap_id == 0,
    {
        StatusUpdate {
            status: 0,
            status_text: "I am gaming".to_owned(),
            beatmap_checksum: "-1".to_owned(),
            current_mods: 0,
            play_mode: 0,
            beatmap_id: 0,
        }
    }

    /// Whether the status can be written.
    pub fn fits_wire(&self) -> (r: bool)
        ensures
            r == self.wire_ok(),
    {
        length_string_fits_wire(self.status_text.as_str()) && length_string_fits_wire(
            self.beatmap_checksum.as_str(),
        )
    }

    /// Appends the status's bytes to `out`.
    pub fn write_fields(&self, out: &mut Vec<u8>)
        requires
            self.wire_ok(),
        ensures
            final(out)@ == old(out)@ + self.payload(),
    {
        put_u8(out, self.status);
        put_length_string(out, self.status_text.as_str());
        put_length_string(out, self.beatmap_checksum.as_str());
        put_i16_le(out, self.current_mods);
        put_u8(out, self.play_mode);
        put_i32_le(out, self.beatmap_id);
        assert(out@ =~= old(out)@ + self.payload());
    }
}

impl ByteCount for StatusUpdate {
    /// The length of the status's bytes on the wire.
    open spec fn spec_byte_count(&self) -> nat {
        self.payload().len()
    }

    fn byte_count(&self) -> (n: usize) {
        self.status.byte_count() + self.status_text.byte_count() + self.beatmap_checksum.byte_count()
            + self.current_mods.byte_count() + self.play_mode.byte_count()
            + self.beatmap_id.byte_count()
    }
}

/// The server's answer to a login: the player's id, or -1 when it failed.
#[derive(Debug, PartialEq)]
pub struct LoginReply {
    pub user_id: i32,
}

impl LoginReply {
    /// The bytes after the header.
    pub open spec fn payload(&self) -> Seq<u8> {
        i32_le(self.user_id)
    }

    /// The payload's length, as the sum of its fields' sizes.
    pub fn byte_count(&self) -> (n: usize)
        ensures
            n == self.payload().len(),
    {
        self.user_id.byte_count()
    }

    /// The header that announces the packet.
    pub fn header(&self) -> (h: Header)
        ensures
            h == packet_header(RequestType::BanchoLoginReply, self.payload()),
    {
        Header { read_type: RequestType::BanchoLoginReply.id(), length: self.byte_count() as u32 }
    }
}

impl WriteToBinaryStream for LoginReply {
    open spec fn wire_ok(&self) -> bool {
        true
    }

    open spec fn wire_bytes(&self) -> Seq<u8> {
        packet_bytes(RequestType::BanchoLoginReply, self.payload())
    }

    fn fits_wire(&self) -> (r: bool) {
        true
    }

    fn write_to(&self, out: &mut Vec<u8>) {
        self.header().write_to(out);
        put_i32_le(out, self.user_id);
        assert(out@ =~= old(out)@ + self.wire_bytes());
    }
}

/// Tells a client that it has joined a channel.
#[derive(Debug, PartialEq)]
pub struct ChannelJoinSuccess {
    pub channel_name: String,
}

impl ChannelJoinSuccess {
    /// The bytes after the header.
    pub open spec fn payload(&self) -> Seq<u8> {
        length_string(self.channel_name@)
    }

    /// The payload's length, as the sum of its fields' sizes.
    pub fn byte_count(&self) -> (n: usize)
        requires
            self.payload().len() <= usize::MAX,
        ensures
            n == self.payload().len(),
    {
        self.channel_name.byte_count()
    }

    /// The header that announces the packet.
    pub fn header(&self) -> (h: Header)
        requires
            self.payload().len() <= usize::MAX,
        ensures
            h == packet_header(RequestType::BanchoChannelJoinSuccess, self.payload()),
    {
        Header {
            read_type: RequestType::BanchoChannelJoinSuccess.id(),
            length: self.byte_count() as u32,
        }
    }
}

impl WriteToBinaryStream for ChannelJoinSuccess {
    open spec fn wire_ok(&self) -> bool {
        length_string_fits(self.channel_name@)
    }

    open spec fn wire_bytes(&self) -> Seq<u8> {
        packet_bytes(RequestType::BanchoChannelJoinSuccess, self.payload())
    }

    fn fits_wire(&self) -> (r: bool) {
        length_string_fits_wire(self.channel_name.as_str())
    }

    fn write_to(&self, out: &mut Vec<u8>) {
        self.header().write_to(out);
        put_length_string(out, self.channel_name.as_str());
        assert(out@ =~= old(out)@ + self.wire_bytes());
    }
}

/// A player's statistics and status, as shown to others.
#[derive(Debug, PartialEq)]
pub struct OsuUpdate {
    pub user_id: i32,
    pub status_update: StatusUpdate,
    pub ranked_score: i64,
    /// The accuracy as the bit pattern of a 32-bit IEEE 754 number.
    pub accuracy_bits: u32,
    pub play_count: i32,
    pub total_score: i64,
    pub rank: i32,
    pub performance_points: i16,
}

impl OsuUpdate {
    /// The bytes after the header.
    pub open spec fn payload(&self) -> Seq<u8> {
        i32_le(self.user_id) + self.status_update.payload() + i64_le(self.ranked_score) + u32_le(
            self.accuracy_bits,
        ) + i32_le(self.play_count) + i64_le(self.total_score) + i32_le(self.rank) + i16_le(
            self.performance_points,
        )
    }

    /// The update the server sends for a player: the statistics given, the
    /// status every player gets (`StatusUpdate::gaming`).
    pub fn for_user(
        user_id: i32,
        ranked_score: i64,
        accuracy_bits: u32,
        play_count: i32,
        total_score: i64,
        rank: i32,
        performance_points: i16,
    ) -> (u: OsuUpdate)
        ensures
            u.user_id == user_id,
            u.status_update.status == 0,
            u.status_update.status_text@ == "I am gaming"@,
            u.status_update.beatmap_checksum@ == "-1"@,
            u.status_update.current_mods == 0,
            u.status_update.play_mode == 0,
            u.status_update.beatmap_id == 0,
            u.ranked_score == ranked_score,
            u.accuracy_bits == accuracy_bits,
            u.play_count == play_count,
            u.total_score == total_score,
            u.rank == rank,
            u.performance_points == performance_points,
    {
        OsuUpdate {
            user_id,
            status_update: StatusUpdate::gaming(),
            ranked_score,
            accuracy_bits,
            play_count,
            total_score,
            rank,
            performance_points,
        }
    }

    /// The payload's length, as the sum of its fields' sizes.
    pub fn byte_count(&self) -> (n: usize)
        requires
            self.payload().len() <= usize::MAX,
        ensures
            n == self.payload().len(),
    {
        self.user_id.byte_count() + self.status_update.byte_count() + self.ranked_score.byte_count()
            + self.accuracy_bits.byte_count() + self.play_count.byte_count()
            + self.total_score.byte_count() + self.rank.byte_count()
            + self.performance_points.byte_count()
    }

    /// The header that announces the packet.
    pub fn header(&self) -> (h: Header)
        requires
            self.payload().len() <= usize::MAX,
        ensures
            h == packet_header(RequestType::BanchoHandleOsuUpdate, self.payload()),
    {
        Header {
            read_type: RequestType::BanchoHandleOsuUpdate.id(),
            length: self.byte_count() as u32,
        }
    }
}

impl WriteToBinaryStream for OsuUpdate {
    open spec fn wire_ok(&self) -> bool {
        self.status_update.wire_ok()
    }

    open spec fn wire_bytes(&self) -> Seq<u8> {
        packet_bytes(RequestType::BanchoHandleOsuUpdate, self.payload())
    }

    fn fits_wire(&self) -> (r: bool) {
        self.status_update.fits_wire()
    }

    fn write_to(&self, out: &mut Vec<u8>) {
        self.header().write_to(out);
        put_i32_le(out, self.user_id);
        self.status_update.write_fields(out);
        put_i64_le(out, self.ranked_score);
        put_u32_le(out, self.accuracy_bits);
        put_i32_le(out, self.play_count);
        put_i64_le(out, self.total_score);
        put_i32_le(out, self.rank);
        put_i16_le(out, self.performance_points);
        assert(out@ =~= old(out)@ + self.wire_bytes());
    }
}

/// A chat message delivered to a client.
#[derive(Debug, PartialEq)]
pub struct SendMessage {
    pub sending_client: String,
    pub content: String,
    pub channel: String,
}

impl SendMessage {
    /// The bytes after the header.
    pub open spec fn payload(&self) -> Seq<u8> {
        length_string(self.sending_client@) + length_string(self.content@) + length_string(
            self.channel@,
        )
    }

    /// The payload's length, as the sum of its fields' sizes.
    pub fn byte_count(&self) -> (n: usize)
        requires
            self.payload().len() <= usize::MAX,
        ensures
            n == self.payload().len(),
    {
        self.sending_client.byte_count() + self.content.byte_count() + self.channel.byte_count()
    }

    /// The header that announces the packet.
    pub fn header(&self) -> (h: Header)
        requires
            self.payload().len() <= usize::MAX,
        ensures
            h == packet_header(RequestType::BanchoSendMessage, self.payload()),
    {
        Header { read_type: RequestType::BanchoSendMessage.id(), length: self.byte_count() as u32 }
    }
}

impl WriteToBinaryStream for SendMessage {
    open spec fn wire_ok(&self) -> bool {
        &&& length_string_fits(self.sending_client@)
        &&& length_string_fits(self.content@)
        &&& length_string_fits(self.channel@)
    }

    open spec fn wire_bytes(&self) -> Seq<u8> {
        packet_bytes(RequestType::BanchoSendMessage, self.payload())
    }

    fn fits_wire(&self) -> (r: bool) {
        length_string_fits_wire(self.sending_client.as_str()) && length_string_fits_wire(
            self.content.as_str(),
        ) && length_string_fits_wire(self.channel.as_str())
    }

    fn write_to(&self, out: &mut Vec<u8>) {
        self.header().write_to(out);
        put_length_string(out, self.sending_client.as_str());
        put_length_string(out, self.content.as_str());
        put_length_string(out, self.channel.as_str());
        assert(out@ =~= old(out)@ + self.wire_bytes());
    }
}

/// Asks a client whether it is still there.
#[derive(Debug, PartialEq)]
pub struct Ping {}

impl Ping {
    /// The bytes after the header: none.
    pub open spec fn payload(&self) -> Seq<u8> {
        Seq::empty()
    }

    /// The payload's length: zero.
    pub fn byte_count(&self) -> (n: usize)
        ensures
            n == self.payload().len(),
    {
        0
    }

    /// The header that announces the packet.
    pub fn header(&self) -> (h: Header)
        ensures
            h == packet_header(RequestType::BanchoPing, self.payload()),
    {
        Header { read_type: RequestType::BanchoPing.id(), length: self.byte_count() as u32 }
    }
}

impl WriteToBinaryStream for Ping {
    open spec fn wire_ok(&self) -> bool {
        true
    }

    open spec fn wire_bytes(&self) -> Seq<u8> {
        packet_bytes(RequestType::BanchoPing, self.payload())
    }

    fn fits_wire(&self) -> (r: bool) {
        true
    }

    fn write_to(&self, out: &mut Vec<u8>) {
        self.header().write_to(out);
        assert(out@ =~= old(out)@ + self.wire_bytes());
    }
}

/// Who a player is and where, as shown to others.
#[derive(Debug, PartialEq)]
pub struct UserPresence {
    pub user_id: i32,
    pub username: String,
    pub timezone: u8,
    pub country_code: u8,
    pub permissions_b: u8,
    /// The longitude as the bit pattern of a 32-bit IEEE 754 number.
    pub longitude_bits: u32,
    /// The latitude as the bit pattern of a 32-bit IEEE 754 number.
    pub latitude_bits: u32,
    pub rank: i32,
}

impl UserPresence {
    /// The bytes after the header.
    pub open spec fn payload(&self) -> Seq<u8> {
        i32_le(self.user_id) + length_string(self.username@) + seq![self.timezone] + seq![
            self.country_code,
        ] + seq![self.permissions_b] + u32_le(self.longitude_bits) + u32_le(self.latitude_bits)
            + i32_le(self.rank)
    }

    /// The presence the server sends for a player: the id, name and rank given;
    /// time zone, country and permissions 0, and the position 0.0, 0.0 (whose bit
    /// patterns are 0).
    pub fn for_user(user_id: i32, username: String, rank: i32) -> (p: UserPresence)
        ensures
            p.user_id == user_id,
            p.username == username,
            p.timezone == 0,
            p.country_code == 0,
            p.permissions_b == 0,
            p.longitude_bits == 0,
            p.latitude_bits == 0,
            p.rank == rank,
    {
        UserPresence {
            user_id,
            rank,
            username,
            timezone: 0,
            country_code: 0,
            permissions_b: 0,
            longitude_bits: 0,
            latitude_bits: 0,
        }
    }

    /// The payload's length, as the sum of its fields' sizes.
    pub fn byte_count(&self) -> (n: usize)
        requires
            self.payload().len() <= usize::MAX,
        ensures
            n == self.payload().len(),
    {
        self.user_id.byte_count() + self.username.byte_count() + self.timezone.byte_count()
            + self.country_code.byte_count() + self.permissions_b.byte_count()
            + self.longitude_bits.byte_count() + self.latitude_bits.byte_count()
            + self.rank.byte_count()
    }

    /// The header that announces the packet.
    pub fn header(&self) -> (h: Header)
        requires
            self.payload().len() <= usize::MAX,
        ensures
            h == packet_header(RequestType::BanchoUserPresence, self.payload()),
    {
        Header { read_type: RequestType::BanchoUserPresence.id(), length: self.byte_count() as u32 }
    }
}

impl WriteToBinaryStream for UserPresence {
    open spec fn wire_ok(&self) -> bool {
        length_string_fits(self.username@)
    }

    open spec fn wire_bytes(&self) -> Seq<u8> {
        packet_bytes(RequestType::BanchoUserPresence, self.payload())
    }

    fn fits_wire(&self) -> (r: bool) {
        length_string_fits_wire(self.username.as_str())
    }

    fn write_to(&self, out: &mut Vec<u8>) {
        self.header().write_to(out);
        put_i32_le(out, self.user_id);
        put_length_string(out, self.username.as_str());
        put_u8(out, self.timezone);
        put_u8(out, self.country_code);
        put_u8(out, self.permissions_b);
        put_u32_le(out, self.longitude_bits);
        put_u32_le(out, self.latitude_bits);
        put_i32_le(out, self.rank);
        assert(out@ =~= old(out)@ + self.wire_bytes());
    }
}

/// Tells a client that the server restarts and when to try again.
#[derive(Debug, PartialEq)]
pub struct NotifyRestart {
    pub retry_ms: i32,
}

impl NotifyRestart {
    /// The bytes after the header.
    pub open spec fn payload(&self) -> Seq<u8> {
        i32_le(self.retry_ms)
    }

    /// The payload's length, as the sum of its fields' sizes.
    pub fn byte_count(&self) -> (n: usize)
        ensures
            n == self.payload().len(),
    {
        self.retry_ms.byte_count()
    }

    /// The header that announces the packet.
    pub fn header(&self) -> (h: Header)
        ensures
            h == packet_header(RequestType::BanchoRestart, self.payload()),
    {
        Header { read_type: RequestType::BanchoRestart.id(), length: self.byte_count() as u32 }
    }
}

impl WriteToBinaryStream for NotifyRestart {
    open spec fn wire_ok(&self) -> bool {
        true
    }

    open spec fn wire_bytes(&self) -> Seq<u8> {
        packet_bytes(RequestType::BanchoRestart, self.payload())
    }

    fn fits_wire(&self) -> (r: bool) {
        true
    }

    fn write_to(&self, out: &mut Vec<u8>) {
        self.header().write_to(out);
        put_i32_le(out, self.retry_ms);
        assert(out@ =~= old(out)@ + self.wire_bytes());
    }
}

} // verus!
