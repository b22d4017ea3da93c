use korasho::bot::{new, BotJob};
use korasho::config::{Config, Server};
use korasho::irc::{
    Client, ConnectionState, Entity, IRCMessageType, IRCServerMessage,
};

fn test_config() -> Config {
    Config {
        servers: Vec::new(),
        nick: b"korasho".to_vec(),
        alt: b"korasho`".to_vec(),
        username: b"kuser".to_vec(),
        realname: b"kreal".to_vec(),
        admin_password: b"hunter2".to_vec(),
        command_byte: b'!',
    }
}

fn test_server() -> Server {
    Server {
        host: b"irc.example.net".to_vec(),
        port: 6667,
        secure: false,
        channels: vec![b"#a".to_vec(), b"#b".to_vec()],
    }
}

fn conn_state() -> ConnectionState {
    ConnectionState {
        nick: b"korasho".to_vec(),
        server_address: b"irc.example.net".to_vec(),
        identified: true,
    }
}

fn peer(nick: &[u8]) -> Entity {
    Entity::Client(Client {
        nick: nick.to_vec(),
        username: b"u".to_vec(),
        address: b"h".to_vec(),
    })
}

fn server_msg(from: Entity, message: IRCMessageType, target: &[u8]) -> IRCServerMessage {
    IRCServerMessage {
        from,
        message,
        time: 0,
        raw: b"raw".to_vec(),
        target: target.to_vec(),
    }
}

#[test]
fn jobs_drain_in_push_order() {
    let config = test_config();
    let mut bot = new(&config, test_server());
    let cs = conn_state();
    // the first informational code above 10 queues one join per channel
    bot.process_server_message(
        server_msg(Entity::Server(b"irc.example.net".to_vec()), IRCMessageType::INFO(376), b"korasho"),
        &cs,
    );
    bot.msg(b"x".to_vec(), peer(b"sender"), &b"hi".to_vec(), &cs);
    assert_eq!(bot.get_job(), Some(BotJob::Join(b"#a".to_vec())));
    assert_eq!(bot.get_job(), Some(BotJob::Join(b"#b".to_vec())));
    assert_eq!(bot.get_job(), Some(BotJob::PrivMsg((b"x".to_vec(), b"hi".to_vec()))));
    assert_eq!(bot.get_job(), None);
}

#[test]
fn low_info_code_does_not_join() {
    let config = test_config();
    let mut bot = new(&config, test_server());
    let cs = conn_state();
    bot.process_server_message(
        server_msg(Entity::Server(b"s".to_vec()), IRCMessageType::INFO(5), b"korasho"),
        &cs,
    );
    assert_eq!(bot.get_job(), None);
}

#[test]
fn channels_are_joined_only_once() {
    let config = test_config();
    let mut bot = new(&config, test_server());
    let cs = conn_state();
    let m = || server_msg(Entity::Server(b"s".to_vec()), IRCMessageType::INFO(376), b"korasho");
    bot.process_server_message(m(), &cs);
    bot.process_server_message(m(), &cs);
    assert_eq!(bot.get_job(), Some(BotJob::Join(b"#a".to_vec())));
    assert_eq!(bot.get_job(), Some(BotJob::Join(b"#b".to_vec())));
    assert_eq!(bot.get_job(), None);
}

#[test]
fn reply_to_own_nick_goes_back_to_the_sender() {
    let config = test_config();
    let mut bot = new(&config, test_server());
    let cs = conn_state();
    bot.msg(b"korasho".to_vec(), peer(b"sender"), &b"hi".to_vec(), &cs);
    assert_eq!(bot.get_job(), Some(BotJob::PrivMsg((b"sender".to_vec(), b"hi".to_vec()))));
}

#[test]
fn auth_with_correct_secret_records_the_operator() {
    let config = test_config();
    let mut bot = new(&config, test_server());
    let cs = conn_state();
    bot.process_server_message(
        server_msg(peer(b"op"), IRCMessageType::PRIVMSG(b"!auth hunter2".to_vec()), b"#chan"),
        &cs,
    );
    assert_eq!(
        bot.get_job(),
        Some(BotJob::PrivMsg((b"#chan".to_vec(), b"Authed!".to_vec())))
    );
    assert!(bot.authed(&peer(b"op")));
    assert!(!bot.authed(&peer(b"other")));
    assert!(!bot.authed(&Entity::Server(b"s".to_vec())));
}

#[test]
fn auth_with_wrong_secret_is_refused() {
    let config = test_config();
    let mut bot = new(&config, test_server());
    let cs = conn_state();
    bot.process_server_message(
        server_msg(peer(b"op"), IRCMessageType::PRIVMSG(b"!auth wrong".to_vec()), b"#chan"),
        &cs,
    );
    assert_eq!(
        bot.get_job(),
        Some(BotJob::PrivMsg((b"#chan".to_vec(), b"Not authed. :(".to_vec())))
    );
    assert!(!bot.authed(&peer(b"op")));
}

#[test]
fn auth_without_argument_is_refused() {
    let config = test_config();
    let mut bot = new(&config, test_server());
    let cs = conn_state();
    bot.process_server_message(
        server_msg(peer(b"op"), IRCMessageType::PRIVMSG(b"!auth".to_vec()), b"#chan"),
        &cs,
    );
    assert_eq!(
        bot.get_job(),
        Some(BotJob::PrivMsg((b"#chan".to_vec(), b"Not authed. :(".to_vec())))
    );
}

#[test]
fn botsnack_answers_only_the_operator() {
    let config = test_config();
    let mut bot = new(&config, test_server());
    let cs = conn_state();
    bot.process_server_message(
        server_msg(peer(b"op"), IRCMessageType::PRIVMSG(b"!botsnack".to_vec()), b"#chan"),
        &cs,
    );
    assert_eq!(bot.get_job(), None);
    bot.process_server_message(
        server_msg(peer(b"op"), IRCMessageType::PRIVMSG(b"!auth hunter2".to_vec()), b"#chan"),
        &cs,
    );
    let _ = bot.get_job();
    bot.process_server_message(
        server_msg(peer(b"op"), IRCMessageType::PRIVMSG(b"!botsnack".to_vec()), b"#chan"),
        &cs,
    );
    assert_eq!(
        bot.get_job(),
        Some(BotJob::PrivMsg((b"#chan".to_vec(), b":)".to_vec())))
    );
}

#[test]
fn empty_privmsg_body_is_ignored() {
    let config = test_config();
    let mut bot = new(&config, test_server());
    let cs = conn_state();
    bot.process_server_message(
        server_msg(peer(b"op"), IRCMessageType::PRIVMSG(Vec::new()), b"#chan"),
        &cs,
    );
    assert_eq!(bot.get_job(), None);
}

#[test]
fn non_command_privmsg_is_ignored() {
    let config = test_config();
    let mut bot = new(&config, test_server());
    let cs = conn_state();
    bot.process_server_message(
        server_msg(peer(b"op"), IRCMessageType::PRIVMSG(b"hello".to_vec()), b"#chan"),
        &cs,
    );
    bot.process_server_message(
        server_msg(peer(b"op"), IRCMessageType::PRIVMSG(b"!frobnicate x".to_vec()), b"#chan"),
        &cs,
    );
    assert_eq!(bot.get_job(), None);
}
