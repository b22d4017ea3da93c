use korasho::irc::{Entity, IRCMessage, IRCMessageType};
use korasho::irc_parser::{make_message, parse_from, parse_line};

fn parse(line: &[u8], now: i64) -> Option<IRCMessage> {
    parse_line(&line.to_vec(), now)
}

#[test]
fn round_trip_peer_privmsg() {
    let r = parse(b":alice!bob@example.com PRIVMSG #chan :hello there\r\n", 7);
    match r {
        Some(IRCMessage::IRCServerMessage(m)) => {
            match m.from {
                Entity::Client(c) => {
                    assert_eq!(c.nick, b"alice".to_vec());
                    assert_eq!(c.username, b"bob".to_vec());
                    assert_eq!(c.address, b"example.com".to_vec());
                },
                _ => panic!("expected a peer origin"),
            }
            assert_eq!(m.message, IRCMessageType::PRIVMSG(b"hello there".to_vec()));
            assert_eq!(m.target, b"#chan".to_vec());
            assert_eq!(m.raw, b"alice!bob@example.com PRIVMSG #chan :hello there".to_vec());
            assert_eq!(m.time, 7);
        },
        _ => panic!("expected a server message"),
    }
}

#[test]
fn numeric_001_is_info_one() {
    let r = parse(b":server 001 target :Welcome\r\n", 0);
    match r {
        Some(IRCMessage::IRCServerMessage(m)) => {
            assert_eq!(m.message, IRCMessageType::INFO(1));
            match m.from {
                Entity::Server(name) => assert_eq!(name, b"server".to_vec()),
                _ => panic!("expected a server origin"),
            }
            assert_eq!(m.target, b"target".to_vec());
        },
        _ => panic!("expected a server message"),
    }
}

#[test]
fn notice_carries_the_body() {
    let r = parse(b":irc.example.net NOTICE * :Looking up your hostname\r\n", 0);
    match r {
        Some(IRCMessage::IRCServerMessage(m)) => {
            assert_eq!(m.message, IRCMessageType::NOTICE(b"Looking up your hostname".to_vec()));
            assert_eq!(m.target, b"*".to_vec());
        },
        _ => panic!("expected a server message"),
    }
}

#[test]
fn mode_carries_residual_tokens_concatenated() {
    let r = parse(b":nick!u@h MODE #chan +o bob\r\n", 0);
    match r {
        Some(IRCMessage::IRCServerMessage(m)) => {
            assert_eq!(m.message, IRCMessageType::MODE(b"+obob".to_vec()));
        },
        _ => panic!("expected a server message"),
    }
}

#[test]
fn empty_body_is_valid() {
    let r = parse(b":a!b@c PRIVMSG #chan :\r\n", 0);
    match r {
        Some(IRCMessage::IRCServerMessage(m)) => {
            assert_eq!(m.message, IRCMessageType::PRIVMSG(Vec::new()));
        },
        _ => panic!("expected a server message"),
    }
}

#[test]
fn ping_line_is_a_keep_alive_challenge() {
    match parse(b"PING :abc\r\n", 42) {
        Some(IRCMessage::IRCPing(p)) => assert_eq!(p.time, 42),
        _ => panic!("expected a keep-alive challenge"),
    }
}

#[test]
fn missing_at_in_peer_token_drops_the_line() {
    assert!(parse(b":nick!user PRIVMSG #c :x\r\n", 0).is_none());
}

#[test]
fn missing_target_token_drops_the_line() {
    assert!(parse(b":nick!u@h PRIVMSG\r\n", 0).is_none());
}

#[test]
fn unknown_command_drops_the_line() {
    assert!(parse(b":nick!u@h WHISPER #c :x\r\n", 0).is_none());
}

#[test]
fn too_short_lines_drop() {
    assert!(parse(b"", 0).is_none());
    assert!(parse(b"\r\n", 0).is_none());
    assert!(parse(b"ab", 0).is_none());
}

#[test]
fn unprefixed_non_ping_drops() {
    assert!(parse(b"NOTICE hello there\r\n", 0).is_none());
    assert!(parse(b"PONG :abc\r\n", 0).is_none());
}

#[test]
fn numeric_overflow_drops_the_line() {
    assert!(parse(b":s 99999999999999999999999999 t :x\r\n", 0).is_none());
}

#[test]
fn signed_numeric_token_drops_the_line() {
    assert!(parse(b":s +123 t :x\r\n", 0).is_none());
}

#[test]
fn parse_from_classifies_entities() {
    match parse_from(&b"irc.example.net".to_vec()) {
        Some(Entity::Server(name)) => assert_eq!(name, b"irc.example.net".to_vec()),
        _ => panic!("expected a server entity"),
    }
    match parse_from(&b"a!b@c".to_vec()) {
        Some(Entity::Client(c)) => {
            assert_eq!(c.nick, b"a".to_vec());
            assert_eq!(c.username, b"b".to_vec());
            assert_eq!(c.address, b"c".to_vec());
        },
        _ => panic!("expected a peer entity"),
    }
    assert!(parse_from(&b"a!bc".to_vec()).is_none());
}

#[test]
fn make_message_classifies_commands() {
    let empty = Vec::new();
    let body = b"hi".to_vec();
    let meta = b"+v".to_vec();
    assert_eq!(
        make_message(&b"NOTICE".to_vec(), &body, &meta),
        Some(IRCMessageType::NOTICE(b"hi".to_vec()))
    );
    assert_eq!(
        make_message(&b"MODE".to_vec(), &body, &meta),
        Some(IRCMessageType::MODE(b"+v".to_vec()))
    );
    assert_eq!(
        make_message(&b"PRIVMSG".to_vec(), &body, &meta),
        Some(IRCMessageType::PRIVMSG(b"hi".to_vec()))
    );
    assert_eq!(make_message(&b"422".to_vec(), &body, &meta), Some(IRCMessageType::INFO(422)));
    assert_eq!(make_message(&b"FOO".to_vec(), &body, &meta), None);
    assert_eq!(make_message(&empty, &body, &meta), None);
}
