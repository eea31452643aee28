use sone_papdi::api::{
    dispatch_command, find_client, invalid_command, output_or_none, sink_or_default,
    workspace_switch_name, ClientEntry, ClientTable, ServerCommand, ServerReply, Subscriptions,
};
use sone_papdi::events::{event_topic, signal_name, EventCategory};
use sone_papdi::ipc::{decode_frame, encode_frame, frame_len, IpcResponse};
use sone_papdi::paths::{
    bar_socket, clipboard_socket, config_dir, daemon_socket, data_dir, path_join, runtime_dir,
};

#[test]
fn runtime_dir_under_run_user() {
    let path = runtime_dir(None, 1000);
    assert!(path.starts_with("/run/user/"));
    assert_eq!(path, "/run/user/1000");
    assert_eq!(runtime_dir(None, 0), "/run/user/0");
    assert_eq!(runtime_dir(None, u32::MAX), "/run/user/4294967295");
}

#[test]
fn sockets_are_in_runtime_dir() {
    let rt = runtime_dir(None, 1000);
    assert_eq!(daemon_socket(&rt), path_join(&rt, "rs-shell.sock"));
    assert_eq!(clipboard_socket(&rt), path_join(&rt, "rs-shell-clipboard.sock"));
    assert_eq!(bar_socket(&rt), path_join(&rt, "rs-shell-bar.sock"));
    assert_eq!(daemon_socket(&rt), "/run/user/1000/rs-shell.sock");
}

#[test]
fn xdg_runtime_dir_respected() {
    assert_eq!(runtime_dir(Some("/tmp/custom-runtime"), 1000), "/tmp/custom-runtime");
}

#[test]
fn path_join_matches_std() {
    for (base, rel) in [("/a/b", "c"), ("/a/b/", "c"), ("", "c"), ("/a", "/abs"), ("a", "")] {
        let expected = std::path::Path::new(base).join(rel);
        assert_eq!(path_join(base, rel), expected.to_str().unwrap());
    }
}

#[test]
fn user_directories() {
    assert_eq!(data_dir(Some("/x/data"), Some("/p")), "/x/data/rs-shell");
    assert_eq!(data_dir(None, Some("/home/u/.local/share")), "/home/u/.local/share/rs-shell");
    assert_eq!(data_dir(None, None), "/tmp/rs-shell-data");
    assert_eq!(config_dir(None, None), "/tmp/rs-shell-config");
    assert_eq!(config_dir(Some("/c"), None), "/c/rs-shell");
}

#[test]
fn frames_round_trip() {
    let payload = br#"{"type":"Ping"}"#;
    let frame = encode_frame(payload);
    assert_eq!(&frame[..4], &(payload.len() as u32).to_be_bytes());
    assert_eq!(frame_len([frame[0], frame[1], frame[2], frame[3]]) as usize, payload.len());
    let mut buf = frame.clone();
    buf.extend_from_slice(b"rest");
    assert_eq!(decode_frame(&buf), Some((payload.to_vec(), frame.len())));
    assert_eq!(decode_frame(&frame[..frame.len() - 1]), None);
    assert_eq!(decode_frame(&frame[..3]), None);
    assert_eq!(decode_frame(&encode_frame(b"")), Some((Vec::new(), 4)));
}

#[test]
fn error_response_has_code_one() {
    match IpcResponse::error("boom".to_string()) {
        IpcResponse::Error { code, message } => {
            assert_eq!(code, 1);
            assert_eq!(message, "boom");
        }
        other => panic!("unexpected {other:?}"),
    }
    assert!(matches!(invalid_command(), IpcResponse::Error { code: 1, message } if message == "invalid command"));
}

#[test]
fn topics_and_signals() {
    assert_eq!(event_topic(EventCategory::Battery), "battery");
    assert_eq!(event_topic(EventCategory::Shell), "shell");
    assert_eq!(signal_name(EventCategory::Audio), Some("VolumeChanged"));
    assert_eq!(signal_name(EventCategory::Clipboard), Some("ClipboardChanged"));
}

#[test]
fn subscriptions_filter_topics() {
    let mut s = Subscriptions::new();
    assert!(s.delivers("battery"));
    s.subscribe("battery".to_string());
    assert!(s.delivers("battery"));
    assert!(!s.delivers("window"));
    s.subscribe("battery".to_string());
    s.unsubscribe("battery");
    assert!(s.delivers("window"));
    s.subscribe_all(vec!["audio".to_string(), "*".to_string()]);
    assert!(s.delivers("window"));
    s.unsubscribe_all(&vec!["*".to_string()]);
    assert!(!s.delivers("window"));
    assert!(s.delivers("audio"));
}

#[test]
fn unix_server_dispatch() {
    let p = dispatch_command(ServerCommand::ClipboardList { limit: Some(10) });
    assert_eq!(p.announce.as_deref(), Some("clipboard-list"));
    assert_eq!(p.reply, ServerReply::Limit(Some(10)));
    let p = dispatch_command(ServerCommand::ShowLauncher);
    assert_eq!(p.announce.as_deref(), Some("show-launcher"));
    assert_eq!(p.reply, ServerReply::Done);
    let p = dispatch_command(ServerCommand::Unsupported);
    assert_eq!(p.announce, None);
    assert_eq!(p.reply, ServerReply::Failed("command not implemented in MVP".to_string()));
}

#[test]
fn dbus_argument_defaults() {
    assert_eq!(sink_or_default(String::new()), "default");
    assert_eq!(sink_or_default("hdmi".to_string()), "hdmi");
    assert_eq!(output_or_none(String::new()), None);
    assert_eq!(output_or_none("DP-1".to_string()), Some("DP-1".to_string()));
    assert_eq!(workspace_switch_name("3"), "switch-workspace:3");
}

#[test]
fn clients_get_events_of_their_topics() {
    let mut table = ClientTable::new();
    table.bind(7);
    table.bind(9);
    // Without subscriptions every client receives everything.
    assert_eq!(table.recipients("battery"), vec![7, 9]);
    table.subscribe(7, "clipboard".to_string());
    assert_eq!(table.recipients("battery"), vec![9]);
    assert_eq!(table.recipients("clipboard"), vec![7, 9]);
    table.subscribe(9, "*".to_string());
    assert_eq!(table.recipients("battery"), vec![9]);
    table.unsubscribe(7, "clipboard");
    assert_eq!(table.recipients("battery"), vec![7, 9]);
    // Unknown clients are ignored.
    table.subscribe(42, "window".to_string());
    assert_eq!(table.recipients("window"), vec![7, 9]);
}

#[test]
fn find_client_returns_the_first_match() {
    let clients = vec![
        ClientEntry { id: 3, subscriptions: Subscriptions::new() },
        ClientEntry { id: 5, subscriptions: Subscriptions::new() },
        ClientEntry { id: 3, subscriptions: Subscriptions::new() },
    ];
    assert_eq!(find_client(&clients, 3), Some(0));
    assert_eq!(find_client(&clients, 5), Some(1));
    assert_eq!(find_client(&clients, 4), None);
}

#[test]
fn subscribe_receives_events() {
    let mut table = ClientTable::new();
    table.bind(1);
    table.subscribe(1, "battery".to_string());
    assert_eq!(table.recipients("battery"), vec![1]);
    assert!(table.recipients("clipboard").is_empty());
}

#[test]
fn subscribe_wildcard_receives_all() {
    let mut table = ClientTable::new();
    table.bind(1);
    table.subscribe(1, "*".to_string());
    assert_eq!(table.recipients("shell"), vec![1]);
    assert_eq!(table.recipients("battery"), vec![1]);
}
