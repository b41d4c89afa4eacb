use p2p_node::command::{handle_command, parse_command, tokenize, Command, Reply};

#[test]
fn tokenize_send_line() {
    let toks = tokenize("send alice hello world");
    assert_eq!(toks, vec!["send", "alice", "hello", "world"]);
}

#[test]
fn tokenize_collapses_runs_of_whitespace() {
    let toks = tokenize("  \tsend   bob\n  hi  ");
    assert_eq!(toks, vec!["send", "bob", "hi"]);
}

#[test]
fn tokenize_splits_on_unicode_whitespace() {
    let toks = tokenize("a\u{3000}b\u{a0}c\u{2003}d");
    assert_eq!(toks, vec!["a", "b", "c", "d"]);
}

#[test]
fn tokenize_blank_line_is_empty() {
    assert!(tokenize("").is_empty());
    assert!(tokenize(" \t \r\n ").is_empty());
}

#[test]
fn send_joins_message_words() {
    match parse_command("send alice hello world") {
        Command::Send { peer, message } => {
            assert_eq!(peer, "alice");
            assert_eq!(message, "hello world");
        }
        _ => panic!("expected a send command"),
    }
}

#[test]
fn send_message_spaces_are_normalised() {
    match parse_command("send  bob   a\tb   c ") {
        Command::Send { peer, message } => {
            assert_eq!(peer, "bob");
            assert_eq!(message, "a b c");
        }
        _ => panic!("expected a send command"),
    }
}

#[test]
fn send_without_message_is_unknown() {
    assert!(matches!(parse_command("send alice"), Command::Unknown));
    assert!(matches!(parse_command("send"), Command::Unknown));
}

#[test]
fn list_is_recognised() {
    assert!(matches!(parse_command("list"), Command::List));
    assert!(matches!(parse_command("  list  "), Command::List));
    assert!(matches!(parse_command("list extra words"), Command::List));
}

#[test]
fn blank_lines_are_unknown() {
    assert!(matches!(parse_command(""), Command::Unknown));
    assert!(matches!(parse_command("   \t  "), Command::Unknown));
}

#[test]
fn other_words_are_unknown() {
    assert!(matches!(parse_command("sendx a b"), Command::Unknown));
    assert!(matches!(parse_command("lists"), Command::Unknown));
    assert!(matches!(parse_command("SEND a b"), Command::Unknown));
}

#[test]
fn list_with_no_peers_counts_zero() {
    match handle_command("list", &Vec::new()) {
        Reply::Peers { count, ids } => {
            assert_eq!(count, 0);
            assert!(ids.is_empty());
        }
        _ => panic!("expected a peer listing"),
    }
}

#[test]
fn list_returns_every_peer_in_order() {
    let peers = vec!["peer-a".to_string(), "peer-b".to_string()];
    match handle_command("list", &peers) {
        Reply::Peers { count, ids } => {
            assert_eq!(count, 2);
            assert_eq!(ids, peers);
        }
        _ => panic!("expected a peer listing"),
    }
}

#[test]
fn handle_send_reports_peer_and_message() {
    match handle_command("send alice hello world", &Vec::new()) {
        Reply::WouldSend { peer, message } => {
            assert_eq!(peer, "alice");
            assert_eq!(message, "hello world");
        }
        _ => panic!("expected a send reply"),
    }
}

#[test]
fn handle_unknown_and_blank() {
    assert!(matches!(handle_command("send alice", &Vec::new()), Reply::Unknown));
    assert!(matches!(handle_command("", &Vec::new()), Reply::Unknown));
    assert!(matches!(handle_command("  ", &Vec::new()), Reply::Unknown));
    assert!(matches!(handle_command("help", &Vec::new()), Reply::Unknown));
}
