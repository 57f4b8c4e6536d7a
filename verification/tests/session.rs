use whisper::session::ClientFrame;
use whisper::session::HeartbeatMonitor;
use whisper::session::SessionInput;
use whisper::session::SessionStep;
use whisper::session::CLIENT_TIMEOUT_NANOS;

#[test]
fn frames_lead_to_their_steps() {
    let mut m = HeartbeatMonitor::new();
    assert_eq!(m.step(5, SessionInput::Frame(ClientFrame::Ping)), SessionStep::ReplyPong);
    assert_eq!(m.last_heartbeat(), 5);
    assert_eq!(m.step(6, SessionInput::Frame(ClientFrame::Pong)), SessionStep::Nothing);
    assert_eq!(m.last_heartbeat(), 6);
    assert_eq!(m.step(7, SessionInput::Frame(ClientFrame::Text)), SessionStep::ForwardAndEcho);
    assert_eq!(m.step(8, SessionInput::Frame(ClientFrame::Binary)), SessionStep::EchoBinary);
    assert_eq!(m.last_heartbeat(), 6);
    assert_eq!(
        m.step(9, SessionInput::Frame(ClientFrame::Close)),
        SessionStep::Close { with_client_reason: true }
    );
    assert_eq!(
        m.step(9, SessionInput::Frame(ClientFrame::Continuation)),
        SessionStep::Close { with_client_reason: false }
    );
    assert_eq!(
        m.step(9, SessionInput::Frame(ClientFrame::Nop)),
        SessionStep::Close { with_client_reason: false }
    );
    assert_eq!(m.step(9, SessionInput::StreamError), SessionStep::Close { with_client_reason: false });
    assert_eq!(m.step(9, SessionInput::StreamEnded), SessionStep::Close { with_client_reason: false });
    assert_eq!(m.step(9, SessionInput::ServerText), SessionStep::RelayToClient);
}

#[test]
fn ticks_ping_until_the_client_falls_silent() {
    let mut m = HeartbeatMonitor::new();
    assert_eq!(m.step(CLIENT_TIMEOUT_NANOS, SessionInput::Tick), SessionStep::SendPing);
    assert_eq!(
        m.step(CLIENT_TIMEOUT_NANOS + 1, SessionInput::Tick),
        SessionStep::Close { with_client_reason: false }
    );
    m.step(CLIENT_TIMEOUT_NANOS, SessionInput::Frame(ClientFrame::Pong));
    assert_eq!(m.step(CLIENT_TIMEOUT_NANOS + 1, SessionInput::Tick), SessionStep::SendPing);
    // a clock reading before the last heartbeat counts as no time passed
    assert_eq!(m.step(0, SessionInput::Tick), SessionStep::SendPing);
}
