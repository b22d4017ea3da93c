use korasho::bot::new as bot_new;
use korasho::config::{Config, Server};
use korasho::irc::{new as irc_new, IRC};

fn test_config() -> Config {
    Config {
        servers: Vec::new(),
        nick: b"korasho".to_vec(),
        alt: b"korasho`".to_vec(),
        username: b"kuser".to_vec(),
        realname: b"kreal".to_vec(),
        admin_password: b"hunter2".to_vec(),
        command_byte: b'!',
    }
}

fn test_server() -> Server {
    Server {
        host: b"irc.example.net".to_vec(),
        port: 6667,
        secure: false,
        channels: vec![b"#a".to_vec(), b"#b".to_vec()],
    }
}

fn engine() -> IRC {
    let config = test_config();
    let bot = bot_new(&config, test_server());
    irc_new(&config, bot)
}

fn step(irc: &mut IRC, input: &[u8]) {
    irc.step(&input.to_vec());
}

#[test]
fn handshake_emits_nick_then_user_and_identifies() {
    let mut irc = engine();
    assert!(!irc.conn_state.identified);
    step(&mut irc, b":irc.example.net NOTICE * :Hello\r\n");
    assert!(irc.conn_state.identified);
    assert_eq!(irc.conn_state.server_address, b"irc.example.net".to_vec());
    assert_eq!(irc.conn_state.nick, b"korasho".to_vec());
    assert_eq!(
        irc.out,
        vec![b"NICK korasho \r\n".to_vec(), b"USER kuser 0 * :kreal \r\n".to_vec()]
    );
}

#[test]
fn handshake_fires_only_once() {
    let mut irc = engine();
    step(&mut irc, b":irc.example.net NOTICE * :Hello\r\n");
    let after_first = irc.out.clone();
    step(&mut irc, b":irc.example.net NOTICE * :Hello again\r\n");
    assert_eq!(irc.out, after_first);
    assert!(irc.conn_state.identified);
}

#[test]
fn peer_origin_does_not_identify() {
    let mut irc = engine();
    step(&mut irc, b":a!b@c PRIVMSG #chan :hi\r\n");
    assert!(!irc.conn_state.identified);
    assert_eq!(irc.out, Vec::<Vec<u8>>::new());
}

#[test]
fn keep_alive_gets_exactly_one_acknowledgment() {
    let mut irc = engine();
    step(&mut irc, b":irc.example.net NOTICE * :Hello\r\n");
    irc.out.clear();
    step(&mut irc, b"PING :abc\r\n");
    assert_eq!(irc.out, vec![b"PONG irc.example.net \r\n".to_vec()]);
    assert!(irc.conn_state.identified);
    assert_eq!(irc.conn_state.server_address, b"irc.example.net".to_vec());
}

#[test]
fn keep_alive_before_handshake_uses_the_empty_address() {
    let mut irc = engine();
    step(&mut irc, b"PING :abc\r\n");
    assert_eq!(irc.out, vec![b"PONG  \r\n".to_vec()]);
    assert!(!irc.conn_state.identified);
}

#[test]
fn malformed_line_is_dropped_and_the_next_one_processed() {
    let mut irc = engine();
    step(&mut irc, b":nick!user PRIVMSG #c :x\r\n");
    assert_eq!(irc.out, Vec::<Vec<u8>>::new());
    assert!(!irc.conn_state.identified);
    step(&mut irc, b":irc.example.net NOTICE * :Hello\r\n");
    assert!(irc.conn_state.identified);
    assert_eq!(irc.out.len(), 2);
}

#[test]
fn at_most_one_job_is_drained_per_iteration() {
    let mut irc = engine();
    // one informational line both identifies and queues the two joins;
    // the same iteration drains exactly one of them
    step(&mut irc, b":irc.example.net 376 korasho :End of MOTD\r\n");
    assert_eq!(
        irc.out,
        vec![
            b"NICK korasho \r\n".to_vec(),
            b"USER kuser 0 * :kreal \r\n".to_vec(),
            b"JOIN #a \r\n".to_vec(),
        ]
    );
    step(&mut irc, b"");
    assert_eq!(irc.out.last(), Some(&b"JOIN #b \r\n".to_vec()));
    assert_eq!(irc.out.len(), 4);
    step(&mut irc, b"");
    assert_eq!(irc.out.len(), 4);
}

#[test]
fn chunked_delivery_equals_whole_delivery() {
    let line: &[u8] = b":irc.example.net 376 korasho :End of MOTD\r\n";
    let mut whole = engine();
    step(&mut whole, line);
    let mut pieces = engine();
    step(&mut pieces, &line[0..9]);
    assert_eq!(pieces.out, Vec::<Vec<u8>>::new());
    step(&mut pieces, &line[9..]);
    assert_eq!(whole.out, pieces.out);
    assert_eq!(whole.conn_state.identified, pieces.conn_state.identified);
}

#[test]
fn reply_to_direct_message_goes_back_to_the_sender() {
    let mut irc = engine();
    step(&mut irc, b":irc.example.net NOTICE * :Hello\r\n");
    irc.out.clear();
    // the operator authenticates in a direct message to the engine's own
    // nickname: the acknowledgment must go to the sender, not to self
    step(&mut irc, b":op!u@h PRIVMSG korasho :!auth hunter2\r\n");
    assert_eq!(irc.out, vec![b"PRIVMSG op :Authed! \r\n".to_vec()]);
}

#[test]
fn encoder_produces_exact_wire_framing() {
    let mut irc = engine();
    irc.priv_msg(&b"bob".to_vec(), &b"hi there".to_vec());
    irc.join(&b"#chan".to_vec());
    irc.send_command(&b"PONG".to_vec(), &b"srv".to_vec());
    assert_eq!(
        irc.out,
        vec![
            b"PRIVMSG bob :hi there \r\n".to_vec(),
            b"JOIN #chan \r\n".to_vec(),
            b"PONG srv \r\n".to_vec(),
        ]
    );
}

#[test]
fn tiny_or_empty_lines_never_stall_the_engine() {
    let mut irc = engine();
    step(&mut irc, b"\n");
    step(&mut irc, b"x\n");
    step(&mut irc, b"\r\n");
    assert_eq!(irc.out, Vec::<Vec<u8>>::new());
    step(&mut irc, b":irc.example.net NOTICE * :Hello\r\n");
    assert!(irc.conn_state.identified);
}
