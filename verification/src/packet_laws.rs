//! What each packet the server sends says: its header and every field read back
//! from the bytes `write_to` writes.
use vstd::prelude::*;
use vstd::utf8::encode_utf8;
use crate::packets::{
    ChannelJoinSuccess, Header, LoginReply, NotifyRestart, OsuUpdate, Ping, RequestType, SendMessage,
    UserPresence, WriteToBinaryStream, lemma_packet_framing, packet_bytes, spec_decode_header,
};
use crate::wire::{
    DecodeError, length_string_fits, i16_from_le, i16_le, i32_from_le, i32_le, i64_from_le, i64_le, length_string,
    lemma_i16_le_roundtrip, lemma_i32_le_roundtrip, lemma_i64_le_roundtrip,
    lemma_length_string_roundtrip, lemma_u32_le_roundtrip, spec_decode_length_string, u32_from_le,
    u32_le,
};

verus! {

/// The header of a packet reads back as its type's number and the length of
/// what follows it.
proof fn lemma_header_of(t: RequestType, payload: Seq<u8>)
    requires
        payload.len() < 0x1_0000_0000,
    ensures
        packet_bytes(t, payload).len() == 7 + payload.len(),
        spec_decode_header(packet_bytes(t, payload)) == Ok::<_, DecodeError>(
            (Header { read_type: t.spec_id(), length: payload.len() as u32 }, 7nat),
        ),
        packet_bytes(t, payload).subrange(7, 7 + payload.len() as int) == payload,
{
    lemma_packet_framing(t, payload, Seq::empty());
    assert(packet_bytes(t, payload) + Seq::<u8>::empty() =~= packet_bytes(t, payload));
}

/// A login reply is the header of type 5 announcing four bytes, then the player's
/// id as a signed 32-bit value, least significant byte first.
pub proof fn lemma_login_reply_bytes(p: LoginReply)
    ensures
        p.wire_bytes().len() == 11,
        spec_decode_header(p.wire_bytes()) == Ok::<_, DecodeError>(
            (Header { read_type: 5, length: 4 }, 7nat),
        ),
        i32_from_le(p.wire_bytes().subrange(7, 11)) == p.user_id,
{
    lemma_i32_le_roundtrip(p.user_id);
    lemma_header_of(RequestType::BanchoLoginReply, p.payload());
}

/// A restart notice is the header of type 86 announcing four bytes, then the
/// retry delay as a signed 32-bit value.
pub proof fn lemma_notify_restart_bytes(p: NotifyRestart)
    ensures
        p.wire_bytes().len() == 11,
        spec_decode_header(p.wire_bytes()) == Ok::<_, DecodeError>(
            (Header { read_type: 86, length: 4 }, 7nat),
        ),
        i32_from_le(p.wire_bytes().subrange(7, 11)) == p.retry_ms,
{
    lemma_i32_le_roundtrip(p.retry_ms);
    lemma_header_of(RequestType::BanchoRestart, p.payload());
}

/// A ping is a bare header of type 8 announcing nothing.
pub proof fn lemma_ping_bytes(p: Ping)
    ensures
        p.wire_bytes().len() == 7,
        spec_decode_header(p.wire_bytes()) == Ok::<_, DecodeError>(
            (Header { read_type: 8, length: 0 }, 7nat),
        ),
{
    lemma_header_of(RequestType::BanchoPing, p.payload());
}

/// A channel join is the header of type 64 announcing what follows, then the
/// channel's name as a length-prefixed string, and nothing after it.
pub proof fn lemma_channel_join_bytes(p: ChannelJoinSuccess)
    requires
        p.wire_ok(),
    ensures
        spec_decode_header(p.wire_bytes()) == Ok::<_, DecodeError>(
            (Header { read_type: 64, length: (p.wire_bytes().len() - 7) as u32 }, 7nat),
        ),
        spec_decode_length_string(p.wire_bytes().subrange(7, p.wire_bytes().len() as int)) == Ok::<
            _,
            DecodeError,
        >((p.channel_name@, (p.wire_bytes().len() - 7) as nat)),
{
    let w = p.wire_bytes();
    lemma_header_of(RequestType::BanchoChannelJoinSuccess, p.payload());
    lemma_length_string_roundtrip(p.channel_name@, Seq::empty());
    assert(w.subrange(7, w.len() as int) =~= length_string(p.channel_name@) + Seq::<u8>::empty());
}

/// A chat message is the header of type 7 announcing what follows, then the
/// sender, the content and the channel as length-prefixed strings, in that
/// order, and nothing after them.
pub proof fn lemma_send_message_bytes(p: SendMessage)
    requires
        p.wire_ok(),
    ensures
        ({
            let w = p.wire_bytes();
            let a: int = 7 + 2 + encode_utf8(p.sending_client@).len() as int;
            let b: int = a + 2 + encode_utf8(p.content@).len();
            &&& w.len() == b + 2 + encode_utf8(p.channel@).len()
            &&& spec_decode_header(w) == Ok::<_, DecodeError>(
                (Header { read_type: 7, length: (w.len() - 7) as u32 }, 7nat),
            )
            &&& spec_decode_length_string(w.subrange(7, w.len() as int)) == Ok::<_, DecodeError>(
                (p.sending_client@, (a - 7) as nat),
            )
            &&& spec_decode_length_string(w.subrange(a, w.len() as int)) == Ok::<_, DecodeError>(
                (p.content@, (b - a) as nat),
            )
            &&& spec_decode_length_string(w.subrange(b, w.len() as int)) == Ok::<_, DecodeError>(
                (p.channel@, (w.len() - b) as nat),
            )
        }),
{
    let w = p.wire_bytes();
    let f0 = length_string(p.sending_client@);
    let f1 = length_string(p.content@);
    let f2 = length_string(p.channel@);
    lemma_header_of(RequestType::BanchoSendMessage, p.payload());
    let a: int = 7 + f0.len() as int;
    let b: int = a + f1.len();
    assert(w.subrange(7, w.len() as int) =~= f0 + (f1 + f2));
    assert(w.subrange(a, w.len() as int) =~= f1 + f2);
    assert(w.subrange(b, w.len() as int) =~= f2 + Seq::<u8>::empty());
    lemma_length_string_roundtrip(p.sending_client@, f1 + f2);
    lemma_length_string_roundtrip(p.content@, f2);
    lemma_length_string_roundtrip(p.channel@, Seq::empty());
}

/// A player's presence is the header of type 83 announcing what follows, then:
/// the id (signed 32 bits), the name (length-prefixed), time zone, country and
/// permissions (a byte each), longitude and latitude (32 bits each) and the rank
/// (signed 32 bits), and nothing after them.
pub proof fn lemma_user_presence_bytes(p: UserPresence)
    requires
        p.wire_ok(),
    ensures
        ({
            let w = p.wire_bytes();
            let n: int = 11 + 2 + encode_utf8(p.username@).len() as int;
            &&& w.len() == n + 15
            &&& spec_decode_header(w) == Ok::<_, DecodeError>(
                (Header { read_type: 83, length: (w.len() - 7) as u32 }, 7nat),
            )
            &&& i32_from_le(w.subrange(7, 11)) == p.user_id
            &&& spec_decode_length_string(w.subrange(11, w.len() as int)) == Ok::<_, DecodeError>(
                (p.username@, (n - 11) as nat),
            )
            &&& w[n] == p.timezone
            &&& w[n + 1] == p.country_code
            &&& w[n + 2] == p.permissions_b
            &&& u32_from_le(w.subrange(n + 3, n + 7)) == p.longitude_bits
            &&& u32_from_le(w.subrange(n + 7, n + 11)) == p.latitude_bits
            &&& i32_from_le(w.subrange(n + 11, n + 15)) == p.rank
        }),
{
    let w = p.wire_bytes();
    let f1 = length_string(p.username@);
    let tail = seq![p.timezone] + seq![p.country_code] + seq![p.permissions_b] + u32_le(
        p.longitude_bits,
    ) + u32_le(p.latitude_bits) + i32_le(p.rank);
    lemma_header_of(RequestType::BanchoUserPresence, p.payload());
    lemma_i32_le_roundtrip(p.user_id);
    lemma_i32_le_roundtrip(p.rank);
    lemma_u32_le_roundtrip(p.longitude_bits);
    lemma_u32_le_roundtrip(p.latitude_bits);
    let n: int = 11 + f1.len() as int;
    assert(w.subrange(7, 11) =~= i32_le(p.user_id));
    assert(w.subrange(11, w.len() as int) =~= f1 + tail);
    lemma_length_string_roundtrip(p.username@, tail);
    assert(w.subrange(n + 3, n + 7) =~= u32_le(p.longitude_bits));
    assert(w.subrange(n + 7, n + 11) =~= u32_le(p.latitude_bits));
    assert(w.subrange(n + 11, n + 15) =~= i32_le(p.rank));
}

/// A player's statistics are the header of type 11 announcing what follows,
/// then: the id (signed 32 bits); the status byte, status text and beatmap
/// checksum (length-prefixed), mods (signed 16 bits), play mode (a byte) and
/// beatmap id (signed 32 bits); the ranked score (signed 64 bits), accuracy (32
/// bits), play count (signed 32 bits), total score (signed 64 bits), rank (signed
/// 32 bits) and performance points (signed 16 bits); and nothing after them.
pub proof fn lemma_osu_update_bytes(p: OsuUpdate)
    requires
        p.wire_ok(),
    ensures
        ({
            let w = p.wire_bytes();
            let s = p.status_update;
            let a: int = 12 + 2 + encode_utf8(s.status_text@).len() as int;
            let o: int = a + 2 + encode_utf8(s.beatmap_checksum@).len();
            &&& w.len() == o + 37
            &&& spec_decode_header(w) == Ok::<_, DecodeError>(
                (Header { read_type: 11, length: (w.len() - 7) as u32 }, 7nat),
            )
            &&& i32_from_le(w.subrange(7, 11)) == p.user_id
            &&& w[11] == s.status
            &&& spec_decode_length_string(w.subrange(12, w.len() as int)) == Ok::<_, DecodeError>(
                (s.status_text@, (a - 12) as nat),
            )
            &&& spec_decode_length_string(w.subrange(a, w.len() as int)) == Ok::<_, DecodeError>(
                (s.beatmap_checksum@, (o - a) as nat),
            )
            &&& i16_from_le(w.subrange(o, o + 2)) == s.current_mods
            &&& w[o + 2] == s.play_mode
            &&& i32_from_le(w.subrange(o + 3, o + 7)) == s.beatmap_id
            &&& i64_from_le(w.subrange(o + 7, o + 15)) == p.ranked_score
            &&& u32_from_le(w.subrange(o + 15, o + 19)) == p.accuracy_bits
            &&& i32_from_le(w.subrange(o + 19, o + 23)) == p.play_count
            &&& i64_from_le(w.subrange(o + 23, o + 31)) == p.total_score
            &&& i32_from_le(w.subrange(o + 31, o + 35)) == p.rank
            &&& i16_from_le(w.subrange(o + 35, o + 37)) == p.performance_points
        }),
{
    let s = p.status_update;
    lemma_osu_payload_split(p);
    lemma_stats_tail(p);
    lemma_update_fields(p, p.payload());
}

/// The statistics packet's fields, read from a packet built around `pl`, the
/// payload split as `lemma_osu_payload_split` says.
proof fn lemma_update_fields(p: OsuUpdate, pl: Seq<u8>)
    requires
        p.wire_ok(),
        pl == i32_le(p.user_id) + (seq![p.status_update.status] + (length_string(
            p.status_update.status_text@,
        ) + (length_string(p.status_update.beatmap_checksum@) + stats_tail(p)))),
        stats_tail(p).len() == 37,
    ensures
        ({
            let w = packet_bytes(RequestType::BanchoHandleOsuUpdate, pl);
            let s = p.status_update;
            let a: int = 12 + 2 + encode_utf8(s.status_text@).len() as int;
            let o: int = a + 2 + encode_utf8(s.beatmap_checksum@).len();
            &&& w.len() == o + 37
            &&& spec_decode_header(w) == Ok::<_, DecodeError>(
                (Header { read_type: 11, length: (w.len() - 7) as u32 }, 7nat),
            )
            &&& i32_from_le(w.subrange(7, 11)) == p.user_id
            &&& w[11] == s.status
            &&& spec_decode_length_string(w.subrange(12, w.len() as int)) == Ok::<_, DecodeError>(
                (s.status_text@, (a - 12) as nat),
            )
            &&& spec_decode_length_string(w.subrange(a, w.len() as int)) == Ok::<_, DecodeError>(
                (s.beatmap_checksum@, (o - a) as nat),
            )
            &&& w.subrange(o, o + 2) == stats_tail(p).subrange(0, 2)
            &&& w[o + 2] == stats_tail(p)[2]
            &&& w.subrange(o + 3, o + 7) == stats_tail(p).subrange(3, 7)
            &&& w.subrange(o + 7, o + 15) == stats_tail(p).subrange(7, 15)
            &&& w.subrange(o + 15, o + 19) == stats_tail(p).subrange(15, 19)
            &&& w.subrange(o + 19, o + 23) == stats_tail(p).subrange(19, 23)
            &&& w.subrange(o + 23, o + 31) == stats_tail(p).subrange(23, 31)
            &&& w.subrange(o + 31, o + 35) == stats_tail(p).subrange(31, 35)
            &&& w.subrange(o + 35, o + 37) == stats_tail(p).subrange(35, 37)
        }),
{
    let w = packet_bytes(RequestType::BanchoHandleOsuUpdate, pl);
    let s = p.status_update;
    let tail = stats_tail(p);
    lemma_header_of(RequestType::BanchoHandleOsuUpdate, pl);
    lemma_update_layout(w, p.user_id, s.status, s.status_text@, s.beatmap_checksum@, tail);
    let o: int = 12 + 2 + encode_utf8(s.status_text@).len() as int + 2 + encode_utf8(
        s.beatmap_checksum@,
    ).len();
    lemma_sub_sub(w, o, 0, 2);
    lemma_sub_sub(w, o, 3, 7);
    lemma_sub_sub(w, o, 7, 15);
    lemma_sub_sub(w, o, 15, 19);
    lemma_sub_sub(w, o, 19, 23);
    lemma_sub_sub(w, o, 23, 31);
    lemma_sub_sub(w, o, 31, 35);
    lemma_sub_sub(w, o, 35, 37);
    assert(w[o + 2] == w.subrange(o, w.len() as int)[2]);
}

/// Where the parts of a statistics packet lie in its bytes `w`, given what
/// follows the header.
proof fn lemma_update_layout(
    w: Seq<u8>,
    user_id: i32,
    status: u8,
    text: Seq<char>,
    checksum: Seq<char>,
    tail: Seq<u8>,
)
    requires
        w.len() >= 7,
        w.subrange(7, w.len() as int) == i32_le(user_id) + (seq![status] + (length_string(text)
            + (length_string(checksum) + tail))),
        length_string_fits(text),
        length_string_fits(checksum),
        tail.len() == 37,
    ensures
        ({
            let a: int = 12 + 2 + encode_utf8(text).len() as int;
            let o: int = a + 2 + encode_utf8(checksum).len();
            &&& w.len() == o + 37
            &&& i32_from_le(w.subrange(7, 11)) == user_id
            &&& w[11] == status
            &&& spec_decode_length_string(w.subrange(12, w.len() as int)) == Ok::<_, DecodeError>(
                (text, (a - 12) as nat),
            )
            &&& spec_decode_length_string(w.subrange(a, w.len() as int)) == Ok::<_, DecodeError>(
                (checksum, (o - a) as nat),
            )
            &&& w.subrange(o, w.len() as int) == tail
        }),
{
    let f2 = length_string(text);
    let f3 = length_string(checksum);
    let body = w.subrange(7, w.len() as int);
    assert(body.len() == w.len() - 7);
    lemma_i32_le_roundtrip(user_id);
    let a: int = 12 + f2.len() as int;
    let o: int = a + f3.len();
    assert(w.subrange(7, 11) =~= body.subrange(0, 4));
    assert(body.subrange(0, 4) =~= i32_le(user_id));
    assert(w[11] == body[4]);
    let r0 = seq![status] + (f2 + (f3 + tail));
    let r1 = f2 + (f3 + tail);
    assert(body.subrange(4, body.len() as int) =~= r0);
    assert(r0.subrange(1, r0.len() as int) =~= r1);
    assert(w.subrange(12, w.len() as int) =~= body.subrange(4, body.len() as int).subrange(1, r0.len() as int));
    assert(w.subrange(12, w.len() as int) =~= r1);
    assert(r1.subrange(f2.len() as int, r1.len() as int) =~= f3 + tail);
    assert(w.subrange(a, w.len() as int) =~= w.subrange(12, w.len() as int).subrange(f2.len() as int, r1.len() as int));
    assert(w.subrange(a, w.len() as int) =~= f3 + tail);
    lemma_length_string_roundtrip(text, f3 + tail);
    lemma_length_string_roundtrip(checksum, tail);
    let r2 = f3 + tail;
    assert(r2.subrange(f3.len() as int, r2.len() as int) =~= tail);
    assert(w.subrange(o, w.len() as int) =~= w.subrange(a, w.len() as int).subrange(
        f3.len() as int,
        r2.len() as int,
    ));
    assert(w.subrange(o, w.len() as int) =~= tail);
}

/// A part of a part of `w` is a part of `w`.
proof fn lemma_sub_sub(w: Seq<u8>, o: int, k: int, m: int)
    requires
        0 <= o,
        0 <= k <= m,
        o + m <= w.len(),
    ensures
        w.subrange(o + k, o + m) == w.subrange(o, w.len() as int).subrange(k, m),
{
    assert(w.subrange(o + k, o + m) =~= w.subrange(o, w.len() as int).subrange(k, m));
}

/// The payload of a statistics packet, as the id, the status byte, the two
/// texts and the fixed-size fields after them.
proof fn lemma_osu_payload_split(p: OsuUpdate)
    ensures
        p.payload() == i32_le(p.user_id) + (seq![p.status_update.status] + (length_string(
            p.status_update.status_text@,
        ) + (length_string(p.status_update.beatmap_checksum@) + stats_tail(p)))),
{
    let s = p.status_update;
    let st = i16_le(s.current_mods) + seq![s.play_mode] + i32_le(s.beatmap_id);
    let rest = i64_le(p.ranked_score) + u32_le(p.accuracy_bits) + i32_le(p.play_count) + i64_le(
        p.total_score,
    ) + i32_le(p.rank) + i16_le(p.performance_points);
    assert(s.payload() =~= seq![s.status] + (length_string(s.status_text@) + (length_string(
        s.beatmap_checksum@,
    ) + st)));
    assert(stats_tail(p) =~= st + rest) by {
        reveal(stats_tail);
    }
    assert(p.payload() =~= i32_le(p.user_id) + s.payload() + rest);
    assert(p.payload() =~= i32_le(p.user_id) + (seq![s.status] + (length_string(s.status_text@) + (
    length_string(s.beatmap_checksum@) + stats_tail(p)))));
}

/// The fixed-size fields of a statistics packet after its two texts.
#[verifier::opaque]
spec fn stats_tail(p: OsuUpdate) -> Seq<u8> {
    let s = p.status_update;
    i16_le(s.current_mods) + seq![s.play_mode] + i32_le(s.beatmap_id) + i64_le(p.ranked_score)
        + u32_le(p.accuracy_bits) + i32_le(p.play_count) + i64_le(p.total_score) + i32_le(p.rank)
        + i16_le(p.performance_points)
}

proof fn lemma_stats_tail(p: OsuUpdate)
    ensures
        ({
            let t = stats_tail(p);
            let s = p.status_update;
            &&& t.len() == 37
            &&& i16_from_le(t.subrange(0, 2)) == s.current_mods
            &&& t[2] == s.play_mode
            &&& i32_from_le(t.subrange(3, 7)) == s.beatmap_id
            &&& i64_from_le(t.subrange(7, 15)) == p.ranked_score
            &&& u32_from_le(t.subrange(15, 19)) == p.accuracy_bits
            &&& i32_from_le(t.subrange(19, 23)) == p.play_count
            &&& i64_from_le(t.subrange(23, 31)) == p.total_score
            &&& i32_from_le(t.subrange(31, 35)) == p.rank
            &&& i16_from_le(t.subrange(35, 37)) == p.performance_points
        }),
{
    reveal(stats_tail);
    let t = stats_tail(p);
    let s = p.status_update;
    lemma_i16_le_roundtrip(s.current_mods);
    lemma_i32_le_roundtrip(s.beatmap_id);
    lemma_i64_le_roundtrip(p.ranked_score);
    lemma_u32_le_roundtrip(p.accuracy_bits);
    lemma_i32_le_roundtrip(p.play_count);
    lemma_i64_le_roundtrip(p.total_score);
    lemma_i32_le_roundtrip(p.rank);
    lemma_i16_le_roundtrip(p.performance_points);
    assert(t.subrange(0, 2) =~= i16_le(s.current_mods));
    assert(t.subrange(3, 7) =~= i32_le(s.beatmap_id));
    assert(t.subrange(7, 15) =~= i64_le(p.ranked_score));
    assert(t.subrange(15, 19) =~= u32_le(p.accuracy_bits));
    assert(t.subrange(19, 23) =~= i32_le(p.play_count));
    assert(t.subrange(23, 31) =~= i64_le(p.total_score));
    assert(t.subrange(31, 35) =~= i32_le(p.rank));
    assert(t.subrange(35, 37) =~= i16_le(p.performance_points));
}

} // verus!
