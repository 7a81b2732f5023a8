//! The rules a connected client lives by: login replies, keeping the
//! connection alive with pings, relaying chat, answering each request, and the
//! server's own small decisions (the web status request, waiting for clients to
//! stop).
use vstd::prelude::*;
use crate::misc::{Duration, Instant, spec_time_diff, time_diff};
use crate::packets::{ChannelJoinSuccess, LoginReply, NotifyRestart, RequestType, SendMessage};
use crate::web::{Credentials, LoginError};

verus! {

/// How long a client's read loop waits between two attempts to read, in milliseconds.
pub const PACKET_ATTEMPT_DELAY_MS: u64 = 10;

/// How long a client may take to answer a ping, in milliseconds.
pub const PING_TIMEOUT_MS: u64 = 48000;

/// The margin around the ping timeout, in milliseconds: a ping goes out once
/// `PING_TIMEOUT_MS - PING_TIMEOUT_SLACK_MS` passed since the last one, and a
/// client whose last pong lies more than `PING_TIMEOUT_MS + PING_TIMEOUT_SLACK_MS`
/// from the last ping is taken for dead.
pub const PING_TIMEOUT_SLACK_MS: u64 = 8000;

/// The delay a client is told to wait before it reconnects after a restart, in milliseconds.
pub const RESTART_RETRY_MS: i32 = 8000;

/// The player whose presence every client gets after its login.
pub const WELCOME_PRESENCE_USER_ID: i32 = 2;

/// How many times the server checks that a client stopped before it gives up.
pub const MAX_STOP_ATTEMPTS: u32 = 100;

/// A logged-in player.
#[derive(Debug)]
pub struct ClientData {
    pub username: String,
    pub user_id: i32,
}

impl ClientData {
    /// The player who logged in with `credentials` and got the id `user_id`.
    pub fn from_login(credentials: Credentials, user_id: i32) -> (c: ClientData)
        ensures
            c.username@ == credentials.username@,
            c.user_id == user_id,
    {
        ClientData { user_id, username: credentials.username }
    }
}

/// The answer to a login: the player's id, or -1 when the login failed.
pub fn login_reply(result: &Result<ClientData, LoginError>) -> (r: LoginReply)
    ensures
        r.user_id == match result {
            Ok(c) => c.user_id,
            Err(_) => -1i32,
        },
{
    match result {
        Ok(c) => LoginReply { user_id: c.user_id },
        Err(_) => LoginReply { user_id: -1 },
    }
}

/// The channel every client joins after its login: `#osu`.
pub fn welcome_channel() -> (p: ChannelJoinSuccess)
    ensures
        p.channel_name@ == "#osu"@,
{
    ChannelJoinSuccess { channel_name: "#osu".to_owned() }
}

/// The greeting every client gets after its login, from `GamerDuck` in `#osu`.
pub fn welcome_message() -> (p: SendMessage)
    ensures
        p.sending_client@ == "GamerDuck"@,
        p.content@ == "Hello I am gamer"@,
        p.channel@ == "#osu"@,
{
    SendMessage {
        sending_client: "GamerDuck".to_owned(),
        content: "Hello I am gamer".to_owned(),
        channel: "#osu".to_owned(),
    }
}

/// What follows a login: for a player who logged in, the channel to join, the
/// player whose presence to send and the greeting; nothing for a refused login.
#[derive(Debug)]
pub enum LoginFollowUp {
    Welcome { channel: ChannelJoinSuccess, presence_user_id: i32, greeting: SendMessage },
    Refused,
}

/// What follows the login with result `result`.
pub fn login_follow_up(result: &Result<ClientData, LoginError>) -> (r: LoginFollowUp)
    ensures
        result is Err ==> r is Refused,
        result is Ok ==> (r matches LoginFollowUp::Welcome { channel, presence_user_id, greeting }
            && channel.channel_name@ == "#osu"@ && presence_user_id == WELCOME_PRESENCE_USER_ID
            && greeting.sending_client@ == "GamerDuck"@ && greeting.content@ == "Hello I am gamer"@
            && greeting.channel@ == "#osu"@),
{
    match result {
        Ok(_) => LoginFollowUp::Welcome {
            channel: welcome_channel(),
            presence_user_id: WELCOME_PRESENCE_USER_ID,
            greeting: welcome_message(),
        },
        Err(_) => LoginFollowUp::Refused,
    }
}

/// What one attempt to read a packet's type number found.
#[derive(Debug, Clone, Copy, PartialEq, Eq, Structural)]
pub enum ReadPoll {
    /// The whole type number arrived.
    Packet,
    /// Fewer bytes came than were asked for: the connection is closed.
    Closed,
    /// Nothing to read yet.
    Waiting,
}

/// What a non-blocking read that asked for `wanted` bytes and got `read` (none:
/// it would have had to wait) means.
pub fn read_poll(read: Option<usize>, wanted: usize) -> (r: ReadPoll)
    ensures
        read is None ==> r == ReadPoll::Waiting,
        read matches Some(n) ==> r == if n == wanted {
            ReadPoll::Packet
        } else {
            ReadPoll::Closed
        },
{
    match read {
        None => ReadPoll::Waiting,
        Some(n) => if n == wanted {
            ReadPoll::Packet
        } else {
            ReadPoll::Closed
        },
    }
}

/// What the server tells a client's session.
#[derive(Debug)]
pub enum InternalBanchoMessage {
    /// Only checks that the session still listens.
    Ping,
    /// The server stops.
    Stop,
    /// A chat message someone sent.
    NewIrcMessage { author: String, message: String, channel: String },
}

/// What a client's session tells the server.
#[derive(Debug)]
pub enum InternalClientMessage {
    /// A chat message the client sent.
    NewIrcMessage { author: String, message: String, channel: String },
}

impl InternalBanchoMessage {
    /// The message each session gets for a chat message a client sent.
    pub fn relayed(msg: &InternalClientMessage) -> (r: InternalBanchoMessage)
        ensures
            match (msg, r) {
                (
                    InternalClientMessage::NewIrcMessage { author, message, channel },
                    InternalBanchoMessage::NewIrcMessage { author: a, message: m, channel: c },
                ) => a@ == author@ && m@ == message@ && c@ == channel@,
                _ => false,
            },
    {
        match msg {
            InternalClientMessage::NewIrcMessage { author, message, channel } => {
                InternalBanchoMessage::NewIrcMessage {
                    author: author.clone(),
                    message: message.clone(),
                    channel: channel.clone(),
                }
            },
        }
    }
}

/// The state of a connected, logged-in client: who it is, when it was last
/// pinged and when it last answered.
#[derive(Debug)]
pub struct Session {
    pub client: ClientData,
    pub last_ping: Instant,
    pub last_pong: Instant,
}

/// Whether a session goes on after a check of its connection.
#[derive(Debug, Clone, Copy, PartialEq, Eq, Structural)]
pub enum Liveness {
    /// The client stopped answering pings: the session ends.
    Dead,
    /// The session goes on; a ping goes out first when `send_ping` holds.
    Alive { send_ping: bool },
}

/// What a session does with a message from the server.
#[derive(Debug)]
pub enum MessageAction {
    /// Nothing to send.
    Nothing,
    /// Send the client this chat message.
    Deliver(SendMessage),
    /// Send the client this notice, then end the session.
    Stop(NotifyRestart),
}

/// What a session does with a request its client sent, after its header.
#[derive(Debug, Clone, Copy, PartialEq, Eq, Structural)]
pub enum RequestAction {
    /// Nothing more to do.
    Continue,
    /// Read the sender, the content and the channel of a chat message, then relay it.
    ReadIrcMessage,
    /// The client left: end the session.
    Exit,
    /// Send the client the statistics of player `user_id`.
    SendStats { user_id: i32 },
    /// Read the update mode the client asks for.
    ReadUpdateMode,
    /// Read the ids of the players whose statistics the client asks for, then
    /// send the statistics of each.
    ReadStatsRequest,
    /// Read and drop the `length` bytes of a request the server does not handle.
    Skip { length: u32 },
}

/// A span of `ms` milliseconds in nanoseconds.
pub open spec fn millis(ms: int) -> int {
    ms * 1_000_000
}

/// What a session does with a request of type `t` whose payload is `length` bytes.
pub open spec fn spec_request_action(client: ClientData, t: RequestType, length: u32) -> RequestAction {
    match t {
        RequestType::OsuSendIrcMessage => RequestAction::ReadIrcMessage,
        RequestType::OsuExit => RequestAction::Exit,
        RequestType::OsuRequestStatusUpdate => RequestAction::SendStats { user_id: client.user_id },
        RequestType::OsuPong => RequestAction::Continue,
        RequestType::OsuBeatmapInfoRequest => RequestAction::Continue,
        RequestType::OsuReceiveUpdates => RequestAction::ReadUpdateMode,
        RequestType::OsuUserStatsRequest => RequestAction::ReadStatsRequest,
        _ => RequestAction::Skip { length },
    }
}

impl Session {
    /// A session for `client` that starts at `now`, as if pinged and answered then.
    pub fn new(client: ClientData, now: Instant) -> (s: Session)
        ensures
            s.client == client,
            s.last_ping == now,
            s.last_pong == now,
    {
        Session { client, last_ping: now, last_pong: now }
    }

    /// Whether the client's last pong lies too far from the last ping.
    pub open spec fn is_dead(&self) -> bool {
        spec_time_diff(self.last_ping, self.last_pong) > millis(
            PING_TIMEOUT_MS + PING_TIMEOUT_SLACK_MS,
        )
    }

    /// Whether it is time for the next ping at `now`.
    pub open spec fn ping_due(&self, now: Instant) -> bool {
        now.nanos - self.last_ping.nanos > millis(PING_TIMEOUT_MS - PING_TIMEOUT_SLACK_MS)
    }

    /// Checks the connection at `now` while the client sends nothing: ends the
    /// session when the client stopped answering pings, else says whether a ping
    /// is due. The session changes only once the ping went out (`ping_sent`).
    pub fn check_liveness(&self, now: Instant) -> (r: Liveness)
        ensures
            self.is_dead() ==> r == Liveness::Dead,
            !self.is_dead() ==> r == (Liveness::Alive { send_ping: self.ping_due(now) }),
    {
        let dead_after = Duration::from_millis(PING_TIMEOUT_MS + PING_TIMEOUT_SLACK_MS);
        let ping_after = Duration::from_millis(PING_TIMEOUT_MS - PING_TIMEOUT_SLACK_MS);
        if time_diff(self.last_ping, self.last_pong).nanos > dead_after.nanos {
            return Liveness::Dead;
        }
        Liveness::Alive { send_ping: self.last_ping.elapsed_at(now).nanos > ping_after.nanos }
    }

    /// Notes that a ping went out at `now`.
    pub fn ping_sent(&mut self, now: Instant)
        ensures
            final(self).client == old(self).client,
            final(self).last_pong == old(self).last_pong,
            final(self).last_ping == now,
    {
        self.last_ping = now;
    }

    /// What to do with a message from the server: deliver a chat message unless
    /// this client wrote it, answer a stop with a restart notice.
    pub fn on_internal_message(&self, msg: InternalBanchoMessage) -> (r: MessageAction)
        ensures
            match msg {
                InternalBanchoMessage::Ping => r is Nothing,
                InternalBanchoMessage::Stop => r matches MessageAction::Stop(n) && n.retry_ms
                    == RESTART_RETRY_MS,
                InternalBanchoMessage::NewIrcMessage { author, message, channel } => if author@
                    == self.client.username@ {
                    r is Nothing
                } else {
                    r matches MessageAction::Deliver(m) && m.sending_client@ == author@
                        && m.content@ == message@ && m.channel@ == channel@
                },
            },
    {
        match msg {
            InternalBanchoMessage::Ping => MessageAction::Nothing,
            InternalBanchoMessage::Stop => MessageAction::Stop(
                NotifyRestart { retry_ms: RESTART_RETRY_MS },
            ),
            InternalBanchoMessage::NewIrcMessage { author, message, channel } => {
                if author != self.client.username {
                    MessageAction::Deliver(
                        SendMessage { sending_client: author, content: message, channel },
                    )
                } else {
                    MessageAction::Nothing
                }
            },
        }
    }

    /// What to do with a request of type `t` with a payload of `length` bytes that
    /// arrived at `now`; a pong notes the time.
    pub fn on_request(&mut self, t: RequestType, length: u32, now: Instant) -> (r: RequestAction)
        ensures
            r == spec_request_action(old(self).client, t, length),
            final(self).client == old(self).client,
            final(self).last_ping == old(self).last_ping,
            final(self).last_pong == if t == RequestType::OsuPong {
                now
            } else {
                old(self).last_pong
            },
    {
        match t {
            RequestType::OsuSendIrcMessage => RequestAction::ReadIrcMessage,
            RequestType::OsuExit => RequestAction::Exit,
            RequestType::OsuRequestStatusUpdate => RequestAction::SendStats {
                user_id: self.client.user_id,
            },
            RequestType::OsuPong => {
                self.last_pong = now;
                RequestAction::Continue
            },
            RequestType::OsuBeatmapInfoRequest => RequestAction::Continue,
            RequestType::OsuReceiveUpdates => RequestAction::ReadUpdateMode,
            RequestType::OsuUserStatsRequest => RequestAction::ReadStatsRequest,
            _ => RequestAction::Skip { length },
        }
    }

    /// The message the server gets for a chat message this client sent: its
    /// author is this client, whatever sender the client named.
    pub fn relay_irc_message(&self, content: String, channel: String) -> (m: InternalClientMessage)
        ensures
            m matches InternalClientMessage::NewIrcMessage { author, message, channel: c }
                && author@ == self.client.username@ && message@ == content@ && c@ == channel@,
    {
        InternalClientMessage::NewIrcMessage {
            author: self.client.username.clone(),
            message: content,
            channel,
        }
    }
}

/// A client that answers a ping within `PING_TIMEOUT_MS + PING_TIMEOUT_SLACK_MS`
/// is not taken for dead after its pong.
pub proof fn lemma_timely_pong_keeps_alive(s: Session, now: Instant)
    requires
        s.last_ping.nanos <= now.nanos <= s.last_ping.nanos + millis(
            PING_TIMEOUT_MS + PING_TIMEOUT_SLACK_MS,
        ),
    ensures
        !(Session { client: s.client, last_ping: s.last_ping, last_pong: now }).is_dead(),
{
}

/// The web listener's answer to a request of type `request_type` while
/// `client_count` clients are registered: type 1 asks for that count (cut to 16
/// bits); there is no answer to any other type.
pub fn web_request_reply(request_type: u16, client_count: usize) -> (r: Option<u16>)
    ensures
        request_type == 1 ==> r == Some(client_count as u16),
        request_type != 1 ==> r is None,
{
    if request_type == 1 {
        Some(client_count as u16)
    } else {
        None
    }
}

/// One step of waiting for a client to stop.
#[derive(Debug, Clone, Copy, PartialEq, Eq, Structural)]
pub enum StopWait {
    /// Wait a little and check again; this was check number `attempt`, and it is
    /// reported when `report` holds.
    Wait { attempt: u32, report: bool },
    /// Waiting is over; `refused` when the client never stopped.
    Done { refused: bool },
}

/// The next step of waiting for a client to stop, after `attempt` checks, when
/// the last check found the client `still_connected`: wait again while it is
/// connected and fewer than `MAX_STOP_ATTEMPTS` checks were made; report every
/// tenth check.
pub fn stop_wait_step(attempt: u32, still_connected: bool) -> (r: StopWait)
    ensures
        still_connected && attempt < MAX_STOP_ATTEMPTS ==> r == (StopWait::Wait {
            attempt: (attempt + 1) as u32,
            report: (attempt + 1) % 10 == 0,
        }),
        !(still_connected && attempt < MAX_STOP_ATTEMPTS) ==> r == (StopWait::Done {
            refused: attempt >= MAX_STOP_ATTEMPTS,
        }),
{
    if still_connected && attempt < MAX_STOP_ATTEMPTS {
        let next = attempt + 1;
        StopWait::Wait { attempt: next, report: next % 10 == 0 && next != 0 }
    } else {
        StopWait::Done { refused: attempt >= MAX_STOP_ATTEMPTS }
    }
}

} // verus!
