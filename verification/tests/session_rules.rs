use bancho::misc::Instant;
use bancho::packets::RequestType;
use bancho::session::{
    login_follow_up, login_reply, read_poll, stop_wait_step, LoginFollowUp, ReadPoll, web_request_reply, welcome_channel, welcome_message, ClientData,
    InternalBanchoMessage, InternalClientMessage, Liveness, MessageAction, RequestAction, Session,
    StopWait, MAX_STOP_ATTEMPTS,
};
use bancho::web::{Credentials, LoginError};

const MS: u64 = 1_000_000;

fn alice() -> ClientData {
    ClientData { username: "alice".to_string(), user_id: 11 }
}

fn at(ms: u64) -> Instant {
    Instant { nanos: ms * MS }
}

#[test]
fn client_data_from_a_login() {
    let c = ClientData::from_login(
        Credentials { username: "bob".to_string(), password_hash: "x".to_string() },
        4,
    );
    assert_eq!(c.username, "bob");
    assert_eq!(c.user_id, 4);
}

#[test]
fn login_replies() {
    assert_eq!(login_reply(&Ok(alice())).user_id, 11);
    assert_eq!(login_reply(&Err(LoginError::InvalidPassword)).user_id, -1);
}

#[test]
fn welcome_packets() {
    assert_eq!(welcome_channel().channel_name, "#osu");
    let m = welcome_message();
    assert_eq!(m.sending_client, "GamerDuck");
    assert_eq!(m.content, "Hello I am gamer");
    assert_eq!(m.channel, "#osu");
}

#[test]
fn a_new_session_needs_no_ping() {
    let s = Session::new(alice(), at(1000));
    assert_eq!(s.check_liveness(at(1000)), Liveness::Alive { send_ping: false });
    assert_eq!(s.check_liveness(at(41000)), Liveness::Alive { send_ping: false });
    assert_eq!(s.last_ping, at(1000));
}

#[test]
fn a_ping_goes_out_after_forty_seconds() {
    let mut s = Session::new(alice(), at(0));
    assert_eq!(s.check_liveness(at(40001)), Liveness::Alive { send_ping: true });
    assert_eq!(s.last_ping, at(0));
    s.ping_sent(at(40003));
    assert_eq!(s.last_ping, at(40003));
    assert_eq!(s.last_pong, at(0));
    assert_eq!(s.check_liveness(at(40004)), Liveness::Alive { send_ping: false });
}

#[test]
fn a_client_that_never_answers_is_dead_after_the_second_ping() {
    let mut s = Session::new(alice(), at(0));
    assert_eq!(s.check_liveness(at(40001)), Liveness::Alive { send_ping: true });
    s.ping_sent(at(40001));
    assert_eq!(s.check_liveness(at(80002)), Liveness::Alive { send_ping: true });
    s.ping_sent(at(80002));
    assert_eq!(s.check_liveness(at(80003)), Liveness::Dead);
    assert_eq!(s.last_ping, at(80002));
}

#[test]
fn a_timely_pong_keeps_the_session_alive() {
    let mut s = Session::new(alice(), at(0));
    assert_eq!(s.check_liveness(at(40001)), Liveness::Alive { send_ping: true });
    s.ping_sent(at(40001));
    assert_eq!(s.on_request(RequestType::OsuPong, 0, at(96001)), RequestAction::Continue);
    assert_eq!(s.last_pong, at(96001));
    assert_eq!(s.check_liveness(at(96001)), Liveness::Alive { send_ping: true });
    let mut late = Session::new(alice(), at(0));
    late.on_request(RequestType::OsuPong, 0, at(56001));
    assert_eq!(late.check_liveness(at(56001)), Liveness::Dead);
}

#[test]
fn reads_of_the_type_number() {
    assert_eq!(read_poll(None, 2), ReadPoll::Waiting);
    assert_eq!(read_poll(Some(2), 2), ReadPoll::Packet);
    assert_eq!(read_poll(Some(1), 2), ReadPoll::Closed);
    assert_eq!(read_poll(Some(0), 2), ReadPoll::Closed);
}

#[test]
fn what_follows_a_login() {
    match login_follow_up(&Ok(alice())) {
        LoginFollowUp::Welcome { channel, presence_user_id, greeting } => {
            assert_eq!(channel.channel_name, "#osu");
            assert_eq!(presence_user_id, 2);
            assert_eq!(greeting.sending_client, "GamerDuck");
            assert_eq!(greeting.content, "Hello I am gamer");
            assert_eq!(greeting.channel, "#osu");
        }
        LoginFollowUp::Refused => panic!("login refused"),
    }
    assert!(matches!(
        login_follow_up(&Err(LoginError::UnloginableUser)),
        LoginFollowUp::Refused
    ));
}

#[test]
fn own_chat_messages_are_not_echoed() {
    let s = Session::new(alice(), at(0));
    let own = InternalBanchoMessage::NewIrcMessage {
        author: "alice".to_string(),
        message: "hi".to_string(),
        channel: "#osu".to_string(),
    };
    assert!(matches!(s.on_internal_message(own), MessageAction::Nothing));
}

#[test]
fn other_chat_messages_are_delivered() {
    let s = Session::new(alice(), at(0));
    let other = InternalBanchoMessage::NewIrcMessage {
        author: "bob".to_string(),
        message: "hi".to_string(),
        channel: "#osu".to_string(),
    };
    match s.on_internal_message(other) {
        MessageAction::Deliver(m) => {
            assert_eq!(m.sending_client, "bob");
            assert_eq!(m.content, "hi");
            assert_eq!(m.channel, "#osu");
        }
        _ => panic!("message not delivered"),
    }
}

#[test]
fn stop_and_ping_messages() {
    let s = Session::new(alice(), at(0));
    match s.on_internal_message(InternalBanchoMessage::Stop) {
        MessageAction::Stop(n) => assert_eq!(n.retry_ms, 8000),
        _ => panic!("stop not answered"),
    }
    assert!(matches!(s.on_internal_message(InternalBanchoMessage::Ping), MessageAction::Nothing));
}

#[test]
fn each_request_type_gets_its_action() {
    let mut s = Session::new(alice(), at(0));
    let now = at(5);
    assert_eq!(s.on_request(RequestType::OsuSendIrcMessage, 9, now), RequestAction::ReadIrcMessage);
    assert_eq!(s.on_request(RequestType::OsuExit, 0, now), RequestAction::Exit);
    assert_eq!(
        s.on_request(RequestType::OsuRequestStatusUpdate, 0, now),
        RequestAction::SendStats { user_id: 11 }
    );
    assert_eq!(s.on_request(RequestType::OsuBeatmapInfoRequest, 30, now), RequestAction::Continue);
    assert_eq!(s.on_request(RequestType::OsuReceiveUpdates, 4, now), RequestAction::ReadUpdateMode);
    assert_eq!(
        s.on_request(RequestType::OsuUserStatsRequest, 6, now),
        RequestAction::ReadStatsRequest
    );
    assert_eq!(
        s.on_request(RequestType::OsuSendUserStatus, 17, now),
        RequestAction::Skip { length: 17 }
    );
    assert_eq!(s.on_request(RequestType::BanchoPing, 3, now), RequestAction::Skip { length: 3 });
    assert_eq!(s.last_pong, at(0));
    assert_eq!(s.last_ping, at(0));
    assert_eq!(s.on_request(RequestType::OsuPong, 0, now), RequestAction::Continue);
    assert_eq!(s.last_pong, now);
}

#[test]
fn relayed_chat_carries_the_session_as_author() {
    let s = Session::new(alice(), at(0));
    let InternalClientMessage::NewIrcMessage { author, message, channel } =
        s.relay_irc_message("yo".to_string(), "#osu".to_string());
    assert_eq!(author, "alice");
    assert_eq!(message, "yo");
    assert_eq!(channel, "#osu");
    let relayed = InternalBanchoMessage::relayed(&InternalClientMessage::NewIrcMessage {
        author,
        message,
        channel,
    });
    match relayed {
        InternalBanchoMessage::NewIrcMessage { author, message, channel } => {
            assert_eq!((author.as_str(), message.as_str(), channel.as_str()), ("alice", "yo", "#osu"));
        }
        _ => panic!("not relayed"),
    }
}

#[test]
fn web_requests() {
    assert_eq!(web_request_reply(1, 3), Some(3));
    assert_eq!(web_request_reply(1, 65536 + 2), Some(2));
    assert_eq!(web_request_reply(0, 3), None);
    assert_eq!(web_request_reply(2, 3), None);
}

#[test]
fn stop_waiting() {
    assert_eq!(stop_wait_step(0, true), StopWait::Wait { attempt: 1, report: false });
    assert_eq!(stop_wait_step(9, true), StopWait::Wait { attempt: 10, report: true });
    assert_eq!(stop_wait_step(99, true), StopWait::Wait { attempt: 100, report: true });
    assert_eq!(stop_wait_step(MAX_STOP_ATTEMPTS, true), StopWait::Done { refused: true });
    assert_eq!(stop_wait_step(5, false), StopWait::Done { refused: false });
    assert_eq!(stop_wait_step(0, false), StopWait::Done { refused: false });
}

#[test]
fn waiting_for_a_stop_ends_after_at_most_a_hundred_checks() {
    let mut attempt = 0;
    let mut steps = 0;
    loop {
        match stop_wait_step(attempt, true) {
            StopWait::Wait { attempt: a, .. } => attempt = a,
            StopWait::Done { refused } => {
                assert!(refused);
                break;
            }
        }
        steps += 1;
    }
    assert_eq!(steps, 100);
}
