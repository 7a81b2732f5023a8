use bancho::misc::ByteCount;
use bancho::packets::{
    decode_header, decode_request_type, ChannelJoinSuccess, Header, LoginReply, NotifyRestart,
    OsuUpdate, Ping, RequestType, SendMessage, StatusUpdate, UserPresence, WriteToBinaryStream,
};
use bancho::wire::DecodeError;

fn bytes_of<P: WriteToBinaryStream>(p: &P) -> Vec<u8> {
    assert!(p.fits_wire());
    let mut out = Vec::new();
    p.write_to(&mut out);
    out
}

#[test]
fn request_type_numbers() {
    let all = [
        (RequestType::OsuSendUserStatus, 0),
        (RequestType::OsuSendIrcMessage, 1),
        (RequestType::OsuExit, 2),
        (RequestType::OsuRequestStatusUpdate, 3),
        (RequestType::OsuPong, 4),
        (RequestType::BanchoLoginReply, 5),
        (RequestType::BanchoHandleOsuUpdate, 11),
        (RequestType::BanchoSendMessage, 7),
        (RequestType::BanchoPing, 8),
        (RequestType::BanchoAnnounce, 24),
        (RequestType::BanchoChannelJoinSuccess, 64),
        (RequestType::OsuBeatmapInfoRequest, 68),
        (RequestType::OsuReceiveUpdates, 79),
        (RequestType::BanchoUserPresence, 83),
        (RequestType::OsuUserStatsRequest, 85),
        (RequestType::BanchoRestart, 86),
    ];
    for (t, id) in all {
        assert_eq!(t.id(), id);
        assert_eq!(RequestType::try_from_id(id), Ok(t));
    }
}

#[test]
fn numbers_without_a_request_type_are_refused() {
    for v in [6u16, 9, 10, 12, 23, 25, 87, 1000, u16::MAX] {
        assert_eq!(
            RequestType::try_from_id(v),
            Err(DecodeError::UnknownRequestType { value: v })
        );
    }
}

#[test]
fn header_is_type_zero_byte_and_length() {
    let h = Header { read_type: 5, length: 0x0102_0304 };
    assert_eq!(bytes_of(&h), vec![5, 0, 0, 4, 3, 2, 1]);
}

#[test]
fn a_written_header_reads_back() {
    let h = Header { read_type: 0xbeef, length: 77 };
    let mut bytes = bytes_of(&h);
    bytes.push(1);
    assert_eq!(decode_header(&bytes), Ok((h, 7)));
}

#[test]
fn header_decoding_needs_seven_bytes() {
    assert_eq!(decode_header(&[1, 0, 0, 4, 0, 0]), Err(DecodeError::Incomplete { needed: 7 }));
    assert_eq!(
        decode_header(&[4, 0, 0, 0, 0, 0, 0]),
        Ok((Header { read_type: 4, length: 0 }, 7))
    );
}

#[test]
fn request_type_decoding() {
    assert_eq!(decode_request_type(&[]), Err(DecodeError::Incomplete { needed: 2 }));
    assert_eq!(decode_request_type(&[4]), Err(DecodeError::Incomplete { needed: 2 }));
    assert_eq!(decode_request_type(&[4, 0, 9]), Ok((RequestType::OsuPong, 2)));
    assert_eq!(decode_request_type(&[85, 0]), Ok((RequestType::OsuUserStatsRequest, 2)));
    assert_eq!(
        decode_request_type(&[9, 1]),
        Err(DecodeError::UnknownRequestType { value: 265 })
    );
}

#[test]
fn login_reply_bytes() {
    let p = LoginReply { user_id: 7 };
    assert_eq!(p.byte_count(), 4);
    assert_eq!(p.header(), Header { read_type: 5, length: 4 });
    assert_eq!(bytes_of(&p), vec![5, 0, 0, 4, 0, 0, 0, 7, 0, 0, 0]);
    let failed = LoginReply { user_id: -1 };
    assert_eq!(bytes_of(&failed), vec![5, 0, 0, 4, 0, 0, 0, 0xff, 0xff, 0xff, 0xff]);
}

#[test]
fn channel_join_bytes() {
    let p = ChannelJoinSuccess { channel_name: "#osu".to_string() };
    assert_eq!(p.byte_count(), 6);
    assert_eq!(
        bytes_of(&p),
        vec![64, 0, 0, 6, 0, 0, 0, 1, 4, b'#', b'o', b's', b'u']
    );
}

#[test]
fn ping_is_a_bare_header() {
    assert_eq!(Ping {}.byte_count(), 0);
    assert_eq!(bytes_of(&Ping {}), vec![8, 0, 0, 0, 0, 0, 0]);
}

#[test]
fn restart_notice_bytes() {
    let p = NotifyRestart { retry_ms: 8000 };
    assert_eq!(bytes_of(&p), vec![86, 0, 0, 4, 0, 0, 0, 0x40, 0x1f, 0, 0]);
}

#[test]
fn send_message_bytes() {
    let p = SendMessage {
        sending_client: "ab".to_string(),
        content: "hi".to_string(),
        channel: "#c".to_string(),
    };
    assert_eq!(p.byte_count(), 12);
    assert_eq!(
        bytes_of(&p),
        vec![7, 0, 0, 12, 0, 0, 0, 1, 2, b'a', b'b', 1, 2, b'h', b'i', 1, 2, b'#', b'c']
    );
}

#[test]
fn user_presence_bytes() {
    let p = UserPresence::for_user(3, "Al".to_string(), 9);
    assert_eq!(p.timezone, 0);
    assert_eq!(p.country_code, 0);
    assert_eq!(p.permissions_b, 0);
    assert_eq!(f32::from_bits(p.longitude_bits), 0.0);
    assert_eq!(f32::from_bits(p.latitude_bits), 0.0);
    assert_eq!(p.byte_count(), 4 + 4 + 3 + 8 + 4);
    assert_eq!(
        bytes_of(&p),
        vec![
            83, 0, 0, 23, 0, 0, 0, 3, 0, 0, 0, 1, 2, b'A', b'l', 0, 0, 0, 0, 0, 0, 0, 0, 0, 0, 0,
            9, 0, 0, 0
        ]
    );
}

#[test]
fn status_update_of_every_player() {
    let s = StatusUpdate::gaming();
    assert_eq!(s.status, 0);
    assert_eq!(s.status_text, "I am gaming");
    assert_eq!(s.beatmap_checksum, "-1");
    assert_eq!(s.current_mods, 0);
    assert_eq!(s.play_mode, 0);
    assert_eq!(s.beatmap_id, 0);
    assert_eq!(s.byte_count(), 1 + 13 + 4 + 2 + 1 + 4);
}

#[test]
fn osu_update_bytes() {
    let acc = 0.5f32.to_bits();
    let p = OsuUpdate::for_user(1, 2, acc, 3, 4, 5, -6);
    assert_eq!(p.byte_count(), 59);
    let b = bytes_of(&p);
    assert_eq!(b.len(), 7 + 59);
    assert_eq!(&b[..7], &[11, 0, 0, 59, 0, 0, 0]);
    assert_eq!(&b[7..11], &[1, 0, 0, 0]);
    assert_eq!(b[11], 0);
    assert_eq!(&b[12..14], &[1, 11]);
    assert_eq!(&b[14..25], b"I am gaming");
    assert_eq!(&b[25..29], &[1, 2, b'-', b'1']);
    assert_eq!(&b[29..36], &[0, 0, 0, 0, 0, 0, 0]);
    assert_eq!(&b[36..44], &2i64.to_le_bytes());
    assert_eq!(&b[44..48], &0.5f32.to_le_bytes());
    assert_eq!(&b[48..52], &3i32.to_le_bytes());
    assert_eq!(&b[52..60], &4i64.to_le_bytes());
    assert_eq!(&b[60..64], &5i32.to_le_bytes());
    assert_eq!(&b[64..66], &(-6i16).to_le_bytes());
}

#[test]
fn header_length_matches_what_follows() {
    let p = SendMessage {
        sending_client: "GamerDuck".to_string(),
        content: "Hello I am gamer".to_string(),
        channel: "#osu".to_string(),
    };
    let b = bytes_of(&p);
    let (h, n) = decode_header(&b).unwrap();
    assert_eq!(h.read_type, RequestType::BanchoSendMessage.id());
    assert_eq!(h.length as usize, b.len() - n);
}

#[test]
fn long_strings_do_not_fit() {
    let p = ChannelJoinSuccess { channel_name: "c".repeat(127) };
    assert!(!p.fits_wire());
    let p = SendMessage {
        sending_client: "a".to_string(),
        content: "b".repeat(200),
        channel: "c".to_string(),
    };
    assert!(!p.fits_wire());
    let p = UserPresence::for_user(1, "n".repeat(130), 1);
    assert!(!p.fits_wire());
    let mut u = OsuUpdate::for_user(1, 2, 0, 3, 4, 5, 6);
    assert!(u.fits_wire());
    u.status_update.status_text = "t".repeat(127);
    assert!(!u.fits_wire());
    assert!(LoginReply { user_id: 1 }.fits_wire());
}
