use capability_host::host::{Backend, Environment, FromEnv};
use capability_host::websocket::{
    on_frame, parse_subscription, AcceptError, ConnectOptions, ConnectionMap, Event, Frame,
    FrameAction, PeerEvent, PeerState, SendError, SendReport, WasiWebSocket, WebSocketDefault,
    BROADCAST_CAPACITY, MAX_CONNECTIONS, PEER_CHANNEL_CAPACITY,
};
use futures_channel::mpsc;
use tokio_tungstenite::tungstenite::protocol::CloseFrame;
use tokio_tungstenite::tungstenite::Message;

fn subscribe(groups: &[&str]) -> Frame {
    let list: Vec<String> = groups.iter().map(|g| format!("\"{g}\"")).collect();
    Frame::Text(format!("{{\"type\":\"subscribe\",\"groups\":[{}]}}", list.join(",")))
}

fn drain(receiver: &mut mpsc::Receiver<Vec<u8>>) -> Vec<Vec<u8>> {
    let mut got = Vec::new();
    while let Ok(Some(payload)) = receiver.try_next() {
        got.push(payload);
    }
    got
}

#[test]
fn websocket() {
    let ctx = WebSocketDefault::connect_with(ConnectOptions { addr: "0.0.0.0:80".into() })
        .expect("connect");
    assert_eq!(ctx.addr, "0.0.0.0:80");
    assert_eq!(ctx.connections.len(), 0);

    let event = WasiWebSocket.new_event(b"test payload".to_vec());
    assert_eq!(event.data(), b"test payload".to_vec());
    assert!(event.group().is_none());
}

#[test]
fn outbound_payload_is_binary() {
    let payload = vec![0, 159, 146, 150];
    let message = Message::Binary(payload.clone().into());
    let Message::Binary(bytes) = message else {
        panic!("expected binary websocket message");
    };
    assert_eq!(bytes.to_vec(), payload);
}

#[test]
fn close_message_is_terminal_frame() {
    let close = Message::Close(Some(CloseFrame {
        code: tokio_tungstenite::tungstenite::protocol::frame::coding::CloseCode::Normal,
        reason: "normal".into(),
    }));
    assert!(matches!(close, Message::Close(_)));
    assert_eq!(on_frame(Frame::Close), FrameAction::Disconnect);
}

#[test]
fn bounded_channel_surfaces_backpressure() {
    let (mut sender, _receiver) = mpsc::channel::<Message>(1);
    for idx in u8::MIN..=u8::MAX {
        match sender.try_send(Message::Binary(vec![idx].into())) {
            Ok(()) => {}
            Err(err) => {
                assert!(err.is_full());
                return;
            }
        }
    }
    panic!("expected backpressure after filling channel");
}

#[test]
fn subscribe_then_targeted_send() {
    let mut map = ConnectionMap::new();
    let (tx_a, mut rx_a) = mpsc::channel::<Vec<u8>>(PEER_CHANNEL_CAPACITY);
    let (tx_b, mut rx_b) = mpsc::channel::<Vec<u8>>(PEER_CHANNEL_CAPACITY);
    map.save_socket(1, tx_a).unwrap();
    map.save_socket(2, tx_b).unwrap();

    let action = map.handle_frame(1, subscribe(&["lobby"]));
    assert_eq!(action, FrameAction::Subscribe(vec!["lobby".to_string()]));
    map.handle_frame(2, subscribe(&["chat"]));
    assert_eq!(map.groups_of(1), Some(vec!["lobby".to_string()]));
    assert_eq!(map.groups_of(2), Some(vec!["chat".to_string()]));

    let lobby = vec!["lobby".to_string()];
    assert_eq!(map.targets(Some(&lobby)), vec![1]);
    assert_eq!(
        map.send(&b"hi".to_vec(), Some(&lobby)),
        Ok(SendReport { targeted: 1, failures: 0 })
    );
    assert_eq!(drain(&mut rx_a), vec![b"hi".to_vec()]);
    assert_eq!(drain(&mut rx_b), Vec::<Vec<u8>>::new());
}

#[test]
fn send_without_groups_reaches_every_peer() {
    let mut map = ConnectionMap::new();
    let (tx_a, mut rx_a) = mpsc::channel::<Vec<u8>>(4);
    let (tx_b, mut rx_b) = mpsc::channel::<Vec<u8>>(4);
    map.save_socket(10, tx_a).unwrap();
    map.save_socket(20, tx_b).unwrap();
    map.handle_frame(10, subscribe(&["lobby"]));
    assert_eq!(map.targets(None), vec![10, 20]);
    assert_eq!(map.send(&vec![1, 2, 3], None), Ok(SendReport { targeted: 2, failures: 0 }));
    assert_eq!(drain(&mut rx_a), vec![vec![1, 2, 3]]);
    assert_eq!(drain(&mut rx_b), vec![vec![1, 2, 3]]);
    let nobody = vec!["nobody".to_string()];
    assert_eq!(map.send(&vec![9], Some(&nobody)), Ok(SendReport { targeted: 0, failures: 0 }));
    assert_eq!(
        map.send(&vec![9], Some(&Vec::new())),
        Ok(SendReport { targeted: 0, failures: 0 })
    );
}

#[test]
fn a_full_channel_drops_the_message_and_keeps_the_peer() {
    let mut map = ConnectionMap::new();
    let (tx_slow, mut rx_slow) = mpsc::channel::<Vec<u8>>(0);
    let (tx_fast, mut rx_fast) = mpsc::channel::<Vec<u8>>(16);
    map.save_socket(1, tx_slow).unwrap();
    map.save_socket(2, tx_fast).unwrap();
    let mut sent = 0usize;
    let mut failed = None;
    for round in 0u8..8 {
        match map.send(&vec![round], None) {
            Ok(report) => {
                assert_eq!(report, SendReport { targeted: 2, failures: 0 });
                sent += 1;
            }
            Err(e) => {
                failed = Some(e);
                break;
            }
        }
    }
    assert_eq!(failed, Some(SendError::ChannelFull { failures: 1 }));
    assert_eq!(
        failed.unwrap().to_string(),
        "failed to enqueue websocket payload for 1 connection(s)"
    );
    assert_eq!(map.len(), 2);
    assert_eq!(drain(&mut rx_slow).len(), sent);
    assert_eq!(drain(&mut rx_fast).len(), sent + 1);
}

#[test]
fn a_send_to_groups_drops_silently_and_counts() {
    let mut map = ConnectionMap::new();
    let (tx_slow, mut rx_slow) = mpsc::channel::<Vec<u8>>(0);
    let (tx_fast, mut rx_fast) = mpsc::channel::<Vec<u8>>(16);
    map.save_socket(1, tx_slow).unwrap();
    map.save_socket(2, tx_fast).unwrap();
    map.set_groups(1, vec!["lobby".to_string()]);
    map.set_groups(2, vec!["lobby".to_string(), "chat".to_string()]);
    let lobby = vec!["lobby".to_string()];
    let mut dropped = 0usize;
    for round in 0u8..8 {
        let report = map.send(&vec![round], Some(&lobby)).unwrap();
        assert_eq!(report.targeted, 2);
        assert!(report.failures <= 1);
        dropped += report.failures;
    }
    assert!(dropped >= 1);
    assert_eq!(map.len(), 2);
    assert_eq!(drain(&mut rx_slow).len(), 8 - dropped);
    assert_eq!(drain(&mut rx_fast).len(), 8);
    assert_eq!(
        capability_host::websocket::send_outcome(3, 2, true),
        Ok(SendReport { targeted: 3, failures: 2 })
    );
    assert_eq!(
        capability_host::websocket::send_outcome(3, 2, false),
        Err(SendError::ChannelFull { failures: 2 })
    );
    assert_eq!(
        capability_host::websocket::send_outcome(3, 0, false),
        Ok(SendReport { targeted: 3, failures: 0 })
    );
}

#[test]
fn closed_channels_are_pruned_before_sending() {
    let mut map = ConnectionMap::new();
    let (tx_a, rx_a) = mpsc::channel::<Vec<u8>>(4);
    let (tx_b, mut rx_b) = mpsc::channel::<Vec<u8>>(4);
    map.save_socket(1, tx_a).unwrap();
    map.save_socket(2, tx_b).unwrap();
    drop(rx_a);
    assert_eq!(map.send(&vec![7], None), Ok(SendReport { targeted: 1, failures: 0 }));
    assert_eq!(map.len(), 1);
    assert_eq!(map.groups_of(1), None);
    assert_eq!(map.groups_of(2), Some(Vec::new()));
    assert_eq!(drain(&mut rx_b), vec![vec![7]]);
    assert_eq!(map.prune(), Vec::<u64>::new());
    assert_eq!(map.len(), 1);
}

#[test]
fn pruning_names_the_peers_it_dropped() {
    let mut map = ConnectionMap::new();
    let mut open = Vec::new();
    for peer in 0u64..6 {
        let (tx, rx) = mpsc::channel::<Vec<u8>>(1);
        map.save_socket(peer, tx).unwrap();
        if peer % 2 == 0 {
            open.push(rx);
        }
    }
    assert_eq!(map.prune(), vec![1, 3, 5]);
    assert_eq!(map.targets(None), vec![0, 2, 4]);
    assert_eq!(map.prune(), Vec::<u64>::new());
    open.clear();
    assert_eq!(map.prune(), vec![0, 2, 4]);
    assert_eq!(map.len(), 0);
}

#[test]
fn accepts_beyond_the_cap_are_rejected() {
    assert_eq!(MAX_CONNECTIONS, 1024);
    assert_eq!(PEER_CHANNEL_CAPACITY, 256);
    assert_eq!(BROADCAST_CAPACITY, 256);
    let mut map = ConnectionMap::new();
    let mut receivers = Vec::new();
    for peer in 0..MAX_CONNECTIONS as u64 {
        let (tx, rx) = mpsc::channel::<Vec<u8>>(1);
        receivers.push(rx);
        assert_eq!(map.save_socket(peer, tx), Ok(()));
    }
    assert_eq!(map.len(), MAX_CONNECTIONS);
    let (tx, _rx) = mpsc::channel::<Vec<u8>>(1);
    assert_eq!(map.save_socket(5000, tx), Err(AcceptError::MaxConnections));
    assert_eq!(map.len(), MAX_CONNECTIONS);
    let (tx, _rx) = mpsc::channel::<Vec<u8>>(1);
    assert_eq!(map.save_socket(3, tx), Err(AcceptError::MaxConnections));
    map.remove(3);
    assert_eq!(map.len(), MAX_CONNECTIONS - 1);
    let (tx, _rx) = mpsc::channel::<Vec<u8>>(1);
    assert_eq!(map.save_socket(5000, tx), Ok(()));
    assert_eq!(map.len(), MAX_CONNECTIONS);
}

#[test]
fn saving_a_connected_peer_again_replaces_it() {
    let mut map = ConnectionMap::new();
    let (tx, _rx) = mpsc::channel::<Vec<u8>>(1);
    map.save_socket(1, tx).unwrap();
    map.handle_frame(1, subscribe(&["lobby"]));
    let (tx, _rx2) = mpsc::channel::<Vec<u8>>(1);
    map.save_socket(1, tx).unwrap();
    assert_eq!(map.len(), 1);
    assert_eq!(map.groups_of(1), Some(Vec::new()));
    map.remove(1);
    map.remove(1);
    assert_eq!(map.len(), 0);
    assert!(!map.set_groups(1, vec!["x".to_string()]));
}

#[test]
fn a_subscription_replaces_the_groups() {
    let mut map = ConnectionMap::new();
    let (tx, _rx) = mpsc::channel::<Vec<u8>>(1);
    map.save_socket(1, tx).unwrap();
    map.handle_frame(1, subscribe(&["a", "b"]));
    map.handle_frame(1, subscribe(&["c"]));
    assert_eq!(map.groups_of(1), Some(vec!["c".to_string()]));
    map.handle_frame(1, subscribe(&[]));
    assert_eq!(map.groups_of(1), Some(Vec::new()));
    let action = map.handle_frame(99, subscribe(&["z"]));
    assert_eq!(action, FrameAction::Subscribe(vec!["z".to_string()]));
    assert_eq!(map.len(), 1);
}

#[test]
fn frames_that_are_no_subscription_are_published() {
    assert_eq!(on_frame(Frame::Text("hello".to_string())), FrameAction::Publish(b"hello".to_vec()));
    assert_eq!(
        on_frame(Frame::Text("{\"type\":\"chat\",\"groups\":[\"a\"]}".to_string())),
        FrameAction::Publish(b"{\"type\":\"chat\",\"groups\":[\"a\"]}".to_vec())
    );
    assert_eq!(
        on_frame(Frame::Text("{\"type\":\"subscribe\"}".to_string())),
        FrameAction::Publish(b"{\"type\":\"subscribe\"}".to_vec())
    );
    assert_eq!(
        on_frame(Frame::Text("{\"type\":\"subscribe\",\"groups\":\"a\"}".to_string())),
        FrameAction::Publish(b"{\"type\":\"subscribe\",\"groups\":\"a\"}".to_vec())
    );
    assert_eq!(
        on_frame(Frame::Text("gr\u{fc}\u{df}e".to_string())),
        FrameAction::Publish("gr\u{fc}\u{df}e".as_bytes().to_vec())
    );
    assert_eq!(on_frame(Frame::Binary(vec![0, 255])), FrameAction::Publish(vec![0, 255]));
    assert_eq!(on_frame(Frame::Other), FrameAction::Ignore);
}

#[test]
fn subscription_groups_are_the_string_items_each_once() {
    assert_eq!(
        parse_subscription("{\"type\":\"subscribe\",\"groups\":[\"a\",1,\"b\",null,\"a\",{}]}"),
        Some(vec!["a".to_string(), "b".to_string()])
    );
    assert_eq!(parse_subscription("{\"groups\":[],\"type\":\"subscribe\"}"), Some(Vec::new()));
    assert_eq!(parse_subscription("[1,2]"), None);
    assert_eq!(parse_subscription("not json"), None);
    assert_eq!(parse_subscription("{\"type\":\"Subscribe\",\"groups\":[]}"), None);
}

#[test]
fn peer_states_follow_the_events() {
    assert_eq!(PeerState::Accepted.step(PeerEvent::HandshakeOk), PeerState::Open);
    assert_eq!(PeerState::Accepted.step(PeerEvent::HandshakeFailed), PeerState::Closed);
    assert_eq!(PeerState::Open.step(PeerEvent::Subscribed), PeerState::Open);
    assert_eq!(PeerState::Open.step(PeerEvent::Payload), PeerState::Open);
    assert_eq!(PeerState::Open.step(PeerEvent::CloseFrame), PeerState::Closing);
    assert_eq!(PeerState::Open.step(PeerEvent::ChannelError), PeerState::Closing);
    assert_eq!(PeerState::Closing.step(PeerEvent::Cleanup), PeerState::Closed);
    assert_eq!(PeerState::Closed.step(PeerEvent::HandshakeOk), PeerState::Closed);
    assert_eq!(PeerState::Accepted.step(PeerEvent::Payload), PeerState::Accepted);
    assert_eq!(PeerState::Open.step(PeerEvent::Cleanup), PeerState::Open);
}

#[test]
fn websocket_options_come_from_the_environment() {
    let empty = Environment { vars: Vec::new() };
    assert_eq!(ConnectOptions::from_env(&empty).unwrap().addr, "0.0.0.0:80");
    let set = Environment {
        vars: vec![
            ("OTHER".to_string(), "x".to_string()),
            ("WEBSOCKET_ADDR".to_string(), "127.0.0.1:9000".to_string()),
            ("WEBSOCKET_ADDR".to_string(), "ignored".to_string()),
        ],
    };
    assert_eq!(ConnectOptions::from_env(&set).unwrap().addr, "127.0.0.1:9000");
    let backend = WebSocketDefault::connect(&set).unwrap();
    assert_eq!(backend.addr, "127.0.0.1:9000");
    assert_eq!(backend.connections.len(), 0);
}

#[test]
fn dropping_peers_keeps_the_others_as_they_were() {
    let mut map = ConnectionMap::new();
    let mut receivers = Vec::new();
    for peer in 0u64..6 {
        let (tx, rx) = mpsc::channel::<Vec<u8>>(4);
        map.save_socket(peer, tx).unwrap();
        receivers.push(rx);
    }
    map.set_groups(2, vec!["lobby".to_string()]);
    map.drop_peers(&vec![4, 1, 9, 1]);
    assert_eq!(map.targets(None), vec![0, 2, 3, 5]);
    assert_eq!(map.groups_of(2), Some(vec!["lobby".to_string()]));
    assert_eq!(map.groups_of(1), None);
    assert_eq!(map.groups_of(4), None);
    map.drop_peers(&Vec::new());
    assert_eq!(map.len(), 4);
    assert_eq!(map.send(&vec![5], None), Ok(SendReport { targeted: 4, failures: 0 }));
    for (peer, rx) in receivers.iter_mut().enumerate() {
        let expected: Vec<Vec<u8>> = if peer == 1 || peer == 4 { vec![] } else { vec![vec![5]] };
        assert_eq!(drain(rx), expected);
    }
    map.drop_peers(&vec![0, 2, 3, 5]);
    assert_eq!(map.len(), 0);
}

#[test]
fn closed_peers_are_named_and_stay_until_they_are_dropped() {
    let mut map = ConnectionMap::new();
    let mut open = Vec::new();
    for peer in 0u64..6 {
        let (tx, rx) = mpsc::channel::<Vec<u8>>(1);
        map.save_socket(peer, tx).unwrap();
        if peer % 2 == 0 {
            open.push(rx);
        }
    }
    assert_eq!(map.closed_peers(), vec![1, 3, 5]);
    assert_eq!(map.len(), 6);
    let closed = map.closed_peers();
    map.drop_peers(&closed);
    assert_eq!(map.targets(None), vec![0, 2, 4]);
    assert_eq!(map.closed_peers(), Vec::<u64>::new());
}

#[test]
fn delivering_drops_no_peer() {
    let mut map = ConnectionMap::new();
    let (tx_gone, rx_gone) = mpsc::channel::<Vec<u8>>(4);
    let (tx_open, mut rx_open) = mpsc::channel::<Vec<u8>>(4);
    let (tx_other, mut rx_other) = mpsc::channel::<Vec<u8>>(4);
    map.save_socket(1, tx_gone).unwrap();
    map.save_socket(2, tx_open).unwrap();
    map.save_socket(3, tx_other).unwrap();
    map.set_groups(1, vec!["lobby".to_string()]);
    map.set_groups(2, vec!["lobby".to_string()]);
    map.set_groups(3, vec!["chat".to_string()]);
    drop(rx_gone);
    let lobby = vec!["lobby".to_string()];
    assert_eq!(map.deliver(&vec![1], Some(&lobby)), Ok(SendReport { targeted: 2, failures: 1 }));
    assert_eq!(map.deliver(&vec![2], None), Err(SendError::ChannelFull { failures: 1 }));
    assert_eq!(map.targets(None), vec![1, 2, 3]);
    assert_eq!(map.groups_of(1), Some(vec!["lobby".to_string()]));
    assert_eq!(drain(&mut rx_open), vec![vec![1], vec![2]]);
    assert_eq!(drain(&mut rx_other), vec![vec![2]]);
    assert_eq!(map.send(&vec![3], None), Ok(SendReport { targeted: 2, failures: 0 }));
    assert_eq!(map.targets(None), vec![2, 3]);
}

#[test]
fn the_saved_sender_is_the_one_that_is_sent_to() {
    let mut map = ConnectionMap::new();
    let (first, mut rx_first) = mpsc::channel::<Vec<u8>>(4);
    let (second, mut rx_second) = mpsc::channel::<Vec<u8>>(4);
    map.save_socket(7, first).unwrap();
    assert_eq!(map.send(&vec![1], None), Ok(SendReport { targeted: 1, failures: 0 }));
    assert_eq!(drain(&mut rx_first), vec![vec![1]]);
    map.save_socket(7, second).unwrap();
    map.set_groups(7, vec!["lobby".to_string()]);
    assert_eq!(map.send(&vec![2], None), Ok(SendReport { targeted: 1, failures: 0 }));
    assert_eq!(drain(&mut rx_first), Vec::<Vec<u8>>::new());
    assert_eq!(drain(&mut rx_second), vec![vec![2]]);
}

#[test]
fn groups_are_kept_each_once() {
    let names: Vec<String> = ["a", "b", "a", "c", "b", "a"].iter().map(|s| s.to_string()).collect();
    assert_eq!(
        capability_host::websocket::unique(&names),
        vec!["a".to_string(), "b".to_string(), "c".to_string()]
    );
    assert_eq!(capability_host::websocket::unique(&Vec::new()), Vec::<String>::new());
    let mut map = ConnectionMap::new();
    let (tx, mut rx) = mpsc::channel::<Vec<u8>>(4);
    map.save_socket(1, tx).unwrap();
    assert!(map.set_groups(1, names));
    assert_eq!(
        map.groups_of(1),
        Some(vec!["a".to_string(), "b".to_string(), "c".to_string()])
    );
    let wanted = vec!["a".to_string(), "b".to_string()];
    assert_eq!(map.send(&vec![1], Some(&wanted)), Ok(SendReport { targeted: 1, failures: 0 }));
    assert_eq!(drain(&mut rx), vec![vec![1]]);
    assert!(capability_host::websocket::has_number(&vec![3, 5, 8], 5));
    assert!(!capability_host::websocket::has_number(&vec![3, 5, 8], 4));
    assert!(!capability_host::websocket::has_number(&Vec::new(), 0));
}

#[test]
fn the_answers_say_which_peers_are_closed() {
    let mut map = ConnectionMap::new();
    let mut receivers = Vec::new();
    for peer in [10u64, 20, 30, 40] {
        let (tx, rx) = mpsc::channel::<Vec<u8>>(1);
        map.save_socket(peer, tx).unwrap();
        receivers.push(rx);
    }
    assert_eq!(map.closed_among(&vec![false, true, false, true]), vec![20, 40]);
    assert_eq!(map.closed_among(&vec![true, true, true, true]), vec![10, 20, 30, 40]);
    assert_eq!(map.closed_among(&vec![false, false, false, false]), Vec::<u64>::new());
    assert_eq!(map.closed_among(&vec![true]), vec![10]);
    assert_eq!(map.closed_among(&vec![false, false, true, false, true, true]), vec![30]);
    assert_eq!(map.closed_among(&Vec::new()), Vec::<u64>::new());
    assert_eq!(map.len(), 4);
    receivers.remove(2);
    receivers.remove(0);
    assert_eq!(map.closed_peers(), map.closed_among(&vec![true, false, true, false]));
    assert_eq!(map.prune(), vec![10, 30]);
    assert_eq!(map.targets(None), vec![20, 40]);
}

#[test]
fn refusals_are_the_answers_that_say_no() {
    assert_eq!(capability_host::websocket::failures_among(&Vec::new()), 0);
    assert_eq!(capability_host::websocket::failures_among(&vec![true, true]), 0);
    assert_eq!(capability_host::websocket::failures_among(&vec![false]), 1);
    assert_eq!(
        capability_host::websocket::failures_among(&vec![false, true, false, false, true]),
        3
    );
}

#[test]
fn a_closed_peer_is_never_a_target_and_never_a_failure() {
    let mut map = ConnectionMap::new();
    let (tx_a, mut rx_a) = mpsc::channel::<Vec<u8>>(4);
    let (tx_b, mut rx_b) = mpsc::channel::<Vec<u8>>(4);
    let (tx_c, rx_c) = mpsc::channel::<Vec<u8>>(4);
    map.save_socket(1, tx_a).unwrap();
    map.save_socket(2, tx_b).unwrap();
    map.save_socket(3, tx_c).unwrap();
    map.set_groups(1, vec!["lobby".to_string()]);
    map.set_groups(3, vec!["lobby".to_string()]);
    drop(rx_c);
    let lobby = vec!["lobby".to_string()];
    assert_eq!(map.send(&vec![1], Some(&lobby)), Ok(SendReport { targeted: 1, failures: 0 }));
    assert_eq!(map.targets(None), vec![1, 2]);
    assert_eq!(map.send(&vec![2], None), Ok(SendReport { targeted: 2, failures: 0 }));
    assert_eq!(drain(&mut rx_a), vec![vec![1], vec![2]]);
    assert_eq!(drain(&mut rx_b), vec![vec![2]]);
}
