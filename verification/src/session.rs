use vstd::prelude::*;

verus! {

/// How often, in seconds, a session pings its client.
pub const HEARTBEAT_INTERVAL_SECS: u64 = 5;

/// How long, in nanoseconds, a client may stay silent (no ping, no pong)
/// before its session is closed: ten seconds.
pub const CLIENT_TIMEOUT_NANOS: u128 = 10_000_000_000;

/// The kinds of WebSocket frame a client sends.
#[derive(Debug, Clone, Copy, PartialEq, Eq, Structural)]
pub enum ClientFrame {
    Ping,
    Pong,
    Text,
    Binary,
    Continuation,
    Close,
    Nop,
}

/// What a session waits on: a frame or the end of the client's stream, a
/// text from the chat server, or the heartbeat timer.
#[derive(Debug, Clone, Copy, PartialEq, Eq, Structural)]
pub enum SessionInput {
    /// A frame from the client.
    Frame(ClientFrame),
    /// The client's stream failed.
    StreamError,
    /// The client's stream ended.
    StreamEnded,
    /// A text from the chat server for this client.
    ServerText,
    /// The heartbeat timer fired.
    Tick,
}

/// What a session does next.
#[derive(Debug, Clone, Copy, PartialEq, Eq, Structural)]
pub enum SessionStep {
    /// Answer the client's ping with a pong carrying the same bytes.
    ReplyPong,
    /// Nothing to send.
    Nothing,
    /// Hand the client's text to the chat server and echo it back to the
    /// client.
    ForwardAndEcho,
    /// Echo the client's binary frame back to it.
    EchoBinary,
    /// Send the chat server's text to the client.
    RelayToClient,
    /// Send the client a heartbeat ping.
    SendPing,
    /// Leave the session, telling the client the reason it gave in its close
    /// frame (`with_client_reason`) or none.
    Close { with_client_reason: bool },
}

/// The time that has passed from `last` to `now`, zero where `now` is
/// earlier.
pub open spec fn elapsed(last: u128, now: u128) -> int {
    if now >= last {
        now - last
    } else {
        0
    }
}

/// The step a session takes on `input` at time `now` when it last heard
/// from its client at `last`.
pub open spec fn step_of(last: u128, now: u128, input: SessionInput) -> SessionStep {
    match input {
        SessionInput::Frame(ClientFrame::Ping) => SessionStep::ReplyPong,
        SessionInput::Frame(ClientFrame::Pong) => SessionStep::Nothing,
        SessionInput::Frame(ClientFrame::Text) => SessionStep::ForwardAndEcho,
        SessionInput::Frame(ClientFrame::Binary) => SessionStep::EchoBinary,
        SessionInput::Frame(ClientFrame::Close) => SessionStep::Close { with_client_reason: true },
        SessionInput::Frame(_) => SessionStep::Close { with_client_reason: false },
        SessionInput::StreamError => SessionStep::Close { with_client_reason: false },
        SessionInput::StreamEnded => SessionStep::Close { with_client_reason: false },
        SessionInput::ServerText => SessionStep::RelayToClient,
        SessionInput::Tick => if elapsed(last, now) > CLIENT_TIMEOUT_NANOS {
            SessionStep::Close { with_client_reason: false }
        } else {
            SessionStep::SendPing
        },
    }
}

/// Whether `input` is a sign of life from the client (a ping or a pong).
pub open spec fn is_heartbeat(input: SessionInput) -> bool {
    input == SessionInput::Frame(ClientFrame::Ping) || input == SessionInput::Frame(
        ClientFrame::Pong,
    )
}

/// The heartbeat bookkeeping of one client session. Times are nanoseconds
/// on a clock that starts with the session.
pub struct HeartbeatMonitor {
    last_heartbeat: u128,
}

impl HeartbeatMonitor {
    /// When the session last heard from its client.
    pub closed spec fn last(&self) -> u128 {
        self.last_heartbeat
    }

    /// A monitor for a session that has just begun (time zero).
    pub fn new() -> (m: Self)
        ensures
            m.last() == 0,
    {
        HeartbeatMonitor { last_heartbeat: 0 }
    }

    /// When the session last heard from its client.
    pub fn last_heartbeat(&self) -> (t: u128)
        ensures
            t == self.last(),
    {
        self.last_heartbeat
    }

    /// Decides what the session does on `input` at time `now`: a ping is
    /// answered, a text goes to the chat server and is echoed back, a binary
    /// frame is echoed back, a server text goes to the client, a close frame or a broken or ended stream closes the session,
    /// and on each tick the client is pinged unless it has been silent for
    /// more than [`CLIENT_TIMEOUT_NANOS`]. A ping or a pong records `now` as
    /// the last sign of life.
    pub fn step(&mut self, now: u128, input: SessionInput) -> (s: SessionStep)
        ensures
            s == step_of(old(self).last(), now, input),
            final(self).last() == if is_heartbeat(input) {
                now
            } else {
                old(self).last()
            },
            input == SessionInput::Frame(ClientFrame::Ping) || input == SessionInput::Frame(
                ClientFrame::Pong,
            ) ==> final(self).last() == now,
            input != SessionInput::Frame(ClientFrame::Ping) && input != SessionInput::Frame(
                ClientFrame::Pong,
            ) ==> final(self).last() == old(self).last(),
    {
        let last = self.last_heartbeat;
        match input {
            SessionInput::Frame(ClientFrame::Ping) => {
                self.last_heartbeat = now;
                SessionStep::ReplyPong
            },
            SessionInput::Frame(ClientFrame::Pong) => {
                self.last_heartbeat = now;
                SessionStep::Nothing
            },
            SessionInput::Frame(ClientFrame::Text) => SessionStep::ForwardAndEcho,
            SessionInput::Frame(ClientFrame::Binary) => SessionStep::EchoBinary,
            SessionInput::Frame(ClientFrame::Close) => SessionStep::Close {
                with_client_reason: true,
            },
            SessionInput::Frame(_) => SessionStep::Close { with_client_reason: false },
            SessionInput::StreamError => SessionStep::Close { with_client_reason: false },
            SessionInput::StreamEnded => SessionStep::Close { with_client_reason: false },
            SessionInput::ServerText => SessionStep::RelayToClient,
            SessionInput::Tick => {
                let silent = if now >= last {
                    now - last
                } else {
                    0
                };
                if silent > CLIENT_TIMEOUT_NANOS {
                    SessionStep::Close { with_client_reason: false }
                } else {
                    SessionStep::SendPing
                }
            },
        }
    }
}

/// What a session does with each frame, whatever the time: a ping is
/// answered with a pong, a text goes to the chat server and back to the
/// client, a binary frame goes back to the client, a pong needs nothing, a
/// close frame closes with the client's reason, and a continuation frame,
/// a nop, a broken or an ended stream close without one; the chat server's
/// text is relayed to the client.
pub proof fn lemma_frame_steps(last: u128, now: u128)
    ensures
        step_of(last, now, SessionInput::Frame(ClientFrame::Ping)) == SessionStep::ReplyPong,
        step_of(last, now, SessionInput::Frame(ClientFrame::Pong)) == SessionStep::Nothing,
        step_of(last, now, SessionInput::Frame(ClientFrame::Text)) == SessionStep::ForwardAndEcho,
        step_of(last, now, SessionInput::Frame(ClientFrame::Binary)) == SessionStep::EchoBinary,
        step_of(last, now, SessionInput::Frame(ClientFrame::Close)) == (SessionStep::Close {
            with_client_reason: true,
        }),
        step_of(last, now, SessionInput::Frame(ClientFrame::Continuation)) == (SessionStep::Close {
            with_client_reason: false,
        }),
        step_of(last, now, SessionInput::Frame(ClientFrame::Nop)) == (SessionStep::Close {
            with_client_reason: false,
        }),
        step_of(last, now, SessionInput::StreamError) == (SessionStep::Close {
            with_client_reason: false,
        }),
        step_of(last, now, SessionInput::StreamEnded) == (SessionStep::Close {
            with_client_reason: false,
        }),
        step_of(last, now, SessionInput::ServerText) == SessionStep::RelayToClient,
{
}

/// Only the client's own pings and pongs count as signs of life: every
/// other input (a text or binary frame, a close, the chat server's text for
/// the client, a tick, a broken or ended stream) is no heartbeat.
pub proof fn lemma_only_client_ping_pong_is_heartbeat(input: SessionInput)
    ensures
        is_heartbeat(input) <==> (input == SessionInput::Frame(ClientFrame::Ping) || input
            == SessionInput::Frame(ClientFrame::Pong)),
        !is_heartbeat(SessionInput::ServerText),
        !is_heartbeat(SessionInput::Tick),
{
}

/// A client that sends no ping or pong is closed at the first tick more
/// than the timeout after it was last heard, whatever else happened in
/// between: the chat server's texts to it do not keep it alive.
pub proof fn lemma_server_text_does_not_keep_client_alive(heard_at: u128, relayed_at: u128, now: u128)
    requires
        heard_at <= relayed_at <= now,
        now - heard_at > CLIENT_TIMEOUT_NANOS,
    ensures
        step_of(heard_at, relayed_at, SessionInput::ServerText) == SessionStep::RelayToClient,
        !is_heartbeat(SessionInput::ServerText),
        step_of(heard_at, now, SessionInput::Tick) == (SessionStep::Close {
            with_client_reason: false,
        }),
{
}

/// A client that keeps answering pings is never timed out: a tick that comes
/// no later than the timeout after a ping or pong leads to a ping, not to a
/// close.
pub proof fn lemma_live_client_not_timed_out(heard_at: u128, now: u128)
    requires
        heard_at <= now,
        now - heard_at <= CLIENT_TIMEOUT_NANOS,
    ensures
        step_of(heard_at, now, SessionInput::Tick) == SessionStep::SendPing,
{
}

/// A client silent for longer than the timeout is disconnected at the next
/// tick.
pub proof fn lemma_silent_client_timed_out(heard_at: u128, now: u128)
    requires
        heard_at <= now,
        now - heard_at > CLIENT_TIMEOUT_NANOS,
    ensures
        step_of(heard_at, now, SessionInput::Tick) == (SessionStep::Close {
            with_client_reason: false,
        }),
{
}

} // verus!
