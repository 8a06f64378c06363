use tokio::sync::mpsc::error::TryRecvError;
use ws_gateway::channel::{open_session_channel, Offer};
use ws_gateway::registry::{delivery_result, DeliveryError, Registry, RegistryError};

#[test]
fn new_registry_is_empty() {
    let registry = Registry::new();
    assert_eq!(registry.len(), 0);
    assert!(!registry.contains("abc123"));
    assert_eq!(registry.count("abc123"), 0);
    assert!(registry.lookup("abc123").is_none());
}

#[test]
fn insert_registers_the_key() {
    let mut registry = Registry::new();
    let (handle, _receiver) = open_session_channel();
    assert_eq!(registry.insert("abc123".to_string(), handle), Ok(()));
    assert!(registry.contains("abc123"));
    assert_eq!(registry.count("abc123"), 1);
    assert_eq!(registry.len(), 1);
    assert!(!registry.contains("abc12"));
    assert!(!registry.contains("abc1234"));
}

#[test]
fn insert_refuses_a_key_that_is_connected() {
    let mut registry = Registry::new();
    let (first, mut first_receiver) = open_session_channel();
    let (second, mut second_receiver) = open_session_channel();
    assert_eq!(registry.insert("k".to_string(), first), Ok(()));
    assert_eq!(registry.insert("k".to_string(), second), Err(RegistryError::AlreadyConnected));
    assert_eq!(registry.len(), 1);
    assert_eq!(registry.count("k"), 1);
    assert_eq!(registry.send_to("k", "hello".to_string()), Ok(()));
    assert_eq!(first_receiver.try_recv(), Ok("hello".to_string()));
    assert_eq!(second_receiver.try_recv(), Err(TryRecvError::Disconnected));
}

#[test]
fn lookup_gives_the_registered_sending_half() {
    let mut registry = Registry::new();
    let (a, _ra) = open_session_channel();
    let (b, _rb) = open_session_channel();
    let a_copy = a.clone();
    let b_copy = b.clone();
    registry.insert("a".to_string(), a).unwrap();
    registry.insert("b".to_string(), b).unwrap();
    assert!(registry.lookup("a").unwrap().same_channel(&a_copy));
    assert!(registry.lookup("b").unwrap().same_channel(&b_copy));
    assert!(!registry.lookup("a").unwrap().same_channel(&b_copy));
    assert!(registry.lookup("c").is_none());
}

#[test]
fn remove_takes_only_the_named_key() {
    let mut registry = Registry::new();
    let (a, _ra) = open_session_channel();
    let (b, _rb) = open_session_channel();
    let (c, _rc) = open_session_channel();
    registry.insert("a".to_string(), a).unwrap();
    registry.insert("b".to_string(), b).unwrap();
    registry.insert("c".to_string(), c).unwrap();
    registry.remove("b");
    assert_eq!(registry.len(), 2);
    assert!(registry.contains("a"));
    assert!(!registry.contains("b"));
    assert!(registry.contains("c"));
    assert_eq!(registry.count("b"), 0);
}

#[test]
fn remove_of_an_absent_key_changes_nothing() {
    let mut registry = Registry::new();
    let (a, _ra) = open_session_channel();
    registry.insert("a".to_string(), a).unwrap();
    registry.remove("zzz");
    assert_eq!(registry.len(), 1);
    assert!(registry.contains("a"));
}

#[test]
fn remove_twice_is_remove_once() {
    let mut registry = Registry::new();
    let (a, _ra) = open_session_channel();
    let (b, _rb) = open_session_channel();
    registry.insert("a".to_string(), a).unwrap();
    registry.insert("b".to_string(), b).unwrap();
    registry.remove("a");
    assert_eq!(registry.len(), 1);
    assert!(!registry.contains("a"));
    assert!(registry.contains("b"));
    registry.remove("a");
    assert_eq!(registry.len(), 1);
    assert!(!registry.contains("a"));
    assert!(registry.contains("b"));
}

#[test]
fn key_can_be_registered_again_after_removal() {
    let mut registry = Registry::new();
    let (old_handle, _old_receiver) = open_session_channel();
    let (new_handle, mut new_receiver) = open_session_channel();
    registry.insert("k".to_string(), old_handle).unwrap();
    registry.remove("k");
    assert_eq!(registry.insert("k".to_string(), new_handle), Ok(()));
    assert_eq!(registry.send_to("k", "again".to_string()), Ok(()));
    assert_eq!(new_receiver.try_recv(), Ok("again".to_string()));
}

#[test]
fn send_to_reaches_the_session_of_the_key() {
    let mut registry = Registry::new();
    let (a, mut ra) = open_session_channel();
    let (b, mut rb) = open_session_channel();
    registry.insert("a".to_string(), a).unwrap();
    registry.insert("b".to_string(), b).unwrap();
    assert_eq!(registry.send_to("b", "for b".to_string()), Ok(()));
    assert_eq!(ra.try_recv(), Err(TryRecvError::Empty));
    assert_eq!(rb.try_recv(), Ok("for b".to_string()));
}

#[test]
fn send_to_an_absent_key_reports_no_such_client() {
    let mut registry = Registry::new();
    let (a, mut ra) = open_session_channel();
    registry.insert("a".to_string(), a).unwrap();
    assert_eq!(
        registry.send_to("ghost", "boo".to_string()),
        Err(DeliveryError::NoSuchConnectedClient)
    );
    assert_eq!(registry.len(), 1);
    assert!(registry.contains("a"));
    assert!(!registry.contains("ghost"));
    assert_eq!(ra.try_recv(), Err(TryRecvError::Empty));
}

#[test]
fn send_to_a_full_channel_reports_channel_full() {
    let mut registry = Registry::new();
    let (a, mut ra) = open_session_channel();
    registry.insert("a".to_string(), a).unwrap();
    for i in 0..4 {
        assert_eq!(registry.send_to("a", format!("e{}", i)), Ok(()));
    }
    assert_eq!(registry.send_to("a", "e4".to_string()), Err(DeliveryError::ChannelFull));
    assert_eq!(ra.try_recv(), Ok("e0".to_string()));
    assert_eq!(registry.send_to("a", "e5".to_string()), Ok(()));
    assert!(registry.contains("a"));
}

#[test]
fn send_to_a_session_that_is_gone_reports_no_such_client() {
    let mut registry = Registry::new();
    let (a, ra) = open_session_channel();
    registry.insert("a".to_string(), a).unwrap();
    drop(ra);
    assert_eq!(
        registry.send_to("a", "late".to_string()),
        Err(DeliveryError::NoSuchConnectedClient)
    );
}

#[test]
fn pushes_arrive_in_the_order_they_were_made() {
    let mut registry = Registry::new();
    let (a, mut ra) = open_session_channel();
    registry.insert("a".to_string(), a).unwrap();
    registry.send_to("a", "one".to_string()).unwrap();
    registry.send_to("a", "two".to_string()).unwrap();
    registry.send_to("a", "three".to_string()).unwrap();
    assert_eq!(ra.try_recv(), Ok("one".to_string()));
    assert_eq!(ra.try_recv(), Ok("two".to_string()));
    assert_eq!(ra.try_recv(), Ok("three".to_string()));
    assert_eq!(ra.try_recv(), Err(TryRecvError::Empty));
}

#[test]
fn delivery_result_names_each_outcome() {
    assert_eq!(delivery_result(Offer::Accepted), Ok(()));
    assert_eq!(delivery_result(Offer::Full), Err(DeliveryError::ChannelFull));
    assert_eq!(delivery_result(Offer::Closed), Err(DeliveryError::NoSuchConnectedClient));
}
