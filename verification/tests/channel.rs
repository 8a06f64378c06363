use tokio::sync::mpsc::error::TryRecvError;
use ws_gateway::channel::{open_session_channel, SESSION_CHANNEL_CAPACITY};

#[test]
fn session_channel_holds_four() {
    let (handle, _receiver) = open_session_channel();
    assert_eq!(SESSION_CHANNEL_CAPACITY, 4);
    assert_eq!(handle.max_capacity(), 4);
}

#[test]
fn fresh_session_channel_is_empty_and_open() {
    let (handle, mut receiver) = open_session_channel();
    assert_eq!(receiver.try_recv(), Err(TryRecvError::Empty));
    assert!(!handle.is_closed());
    drop(handle);
    assert_eq!(receiver.try_recv(), Err(TryRecvError::Disconnected));
}
