//! The protocol engine: message and entity types, the connection-state
//! record, and the engine itself, which turns parsed lines into state
//! transitions and queued outbound wire commands.

use vstd::prelude::*;
use crate::bot::{handle_message_tr, opt_job_view, Bot, BotV, BotJob, JobV};
use crate::bytes::{append_bytes, clone_bytes, lemma_vec_u8_eq_spec};
use crate::config::{Config, ConfigV};
use crate::framer::{complete_lines, framer_rest, LineFramer};
use crate::irc_parser::{now_seconds, opt_message_view, parse_line, parse_line_spec};

verus! {

/// Space separates tokens on a wire line.
pub const SPACE: u8 = 32;

/// Colon opens a server-origin line and a trailing free-text body.
pub const COLON: u8 = 58;

/// Carriage return, first byte of the line terminator.
pub const CR: u8 = 13;

/// Line feed, second byte of the line terminator.
pub const LF: u8 = 10;

/// Separates the nick from the rest of a peer-origin token.
pub const EXCL: u8 = 33;

/// Separates the username from the address in a peer-origin token.
pub const AT: u8 = 64;

/// The bytes of `"NICK"`.
pub open spec fn nick_word() -> Seq<u8> {
    seq![78u8, 73u8, 67u8, 75u8]
}

/// The bytes of `"JOIN"`.
pub open spec fn join_word() -> Seq<u8> {
    seq![74u8, 79u8, 73u8, 78u8]
}

/// The bytes of `"USER"`.
pub open spec fn user_word() -> Seq<u8> {
    seq![85u8, 83u8, 69u8, 82u8]
}

/// The bytes of `"PONG"`.
pub open spec fn pong_word() -> Seq<u8> {
    seq![80u8, 79u8, 78u8, 71u8]
}

/// The bytes of `"PRIVMSG"`.
pub open spec fn privmsg_word() -> Seq<u8> {
    seq![80u8, 82u8, 73u8, 86u8, 77u8, 83u8, 71u8]
}

/// The bytes of `"NOTICE"`.
pub open spec fn notice_word() -> Seq<u8> {
    seq![78u8, 79u8, 84u8, 73u8, 67u8, 69u8]
}

/// The bytes of `"MODE"`.
pub open spec fn mode_word() -> Seq<u8> {
    seq![77u8, 79u8, 68u8, 69u8]
}

/// The bytes of `"PING"`.
pub open spec fn ping_word() -> Seq<u8> {
    seq![80u8, 73u8, 78u8, 71u8]
}

pub fn nick_word_vec() -> (v: Vec<u8>)
    ensures
        v@ == nick_word(),
{
    let mut v: Vec<u8> = Vec::new();
    v.push(78);
    v.push(73);
    v.push(67);
    v.push(75);
    proof {
        assert(v@ =~= nick_word());
    }
    v
}

pub fn join_word_vec() -> (v: Vec<u8>)
    ensures
        v@ == join_word(),
{
    let mut v: Vec<u8> = Vec::new();
    v.push(74);
    v.push(79);
    v.push(73);
    v.push(78);
    proof {
        assert(v@ =~= join_word());
    }
    v
}

pub fn user_word_vec() -> (v: Vec<u8>)
    ensures
        v@ == user_word(),
{
    let mut v: Vec<u8> = Vec::new();
    v.push(85);
    v.push(83);
    v.push(69);
    v.push(82);
    proof {
        assert(v@ =~= user_word());
    }
    v
}

pub fn pong_word_vec() -> (v: Vec<u8>)
    ensures
        v@ == pong_word(),
{
    let mut v: Vec<u8> = Vec::new();
    v.push(80);
    v.push(79);
    v.push(78);
    v.push(71);
    proof {
        assert(v@ =~= pong_word());
    }
    v
}

pub fn privmsg_word_vec() -> (v: Vec<u8>)
    ensures
        v@ == privmsg_word(),
{
    let mut v: Vec<u8> = Vec::new();
    v.push(80);
    v.push(82);
    v.push(73);
    v.push(86);
    v.push(77);
    v.push(83);
    v.push(71);
    proof {
        assert(v@ =~= privmsg_word());
    }
    v
}

pub fn notice_word_vec() -> (v: Vec<u8>)
    ensures
        v@ == notice_word(),
{
    let mut v: Vec<u8> = Vec::new();
    v.push(78);
    v.push(79);
    v.push(84);
    v.push(73);
    v.push(67);
    v.push(69);
    proof {
        assert(v@ =~= notice_word());
    }
    v
}

pub fn mode_word_vec() -> (v: Vec<u8>)
    ensures
        v@ == mode_word(),
{
    let mut v: Vec<u8> = Vec::new();
    v.push(77);
    v.push(79);
    v.push(68);
    v.push(69);
    proof {
        assert(v@ =~= mode_word());
    }
    v
}

pub fn ping_word_vec() -> (v: Vec<u8>)
    ensures
        v@ == ping_word(),
{
    let mut v: Vec<u8> = Vec::new();
    v.push(80);
    v.push(73);
    v.push(78);
    v.push(71);
    proof {
        assert(v@ =~= ping_word());
    }
    v
}

/// A peer: the origin of a message sent by another connected client.
#[derive(Debug, Clone)]
pub struct Client {
    pub nick: Vec<u8>,
    pub username: Vec<u8>,
    pub address: Vec<u8>,
}

/// Ghost record of a `Client`.
#[verifier::ext_equal]
pub struct ClientV {
    pub nick: Seq<u8>,
    pub username: Seq<u8>,
    pub address: Seq<u8>,
}

impl View for Client {
    type V = ClientV;

    open spec fn view(&self) -> ClientV {
        ClientV { nick: self.nick@, username: self.username@, address: self.address@ }
    }
}

impl PartialEq for Client {
    fn eq(&self, other: &Client) -> (r: bool) {
        proof {
            lemma_vec_u8_eq_spec(&self.nick, &other.nick);
            lemma_vec_u8_eq_spec(&self.username, &other.username);
            lemma_vec_u8_eq_spec(&self.address, &other.address);
        }
        self.nick == other.nick && self.username == other.username && self.address
            == other.address
    }
}

impl vstd::std_specs::cmp::PartialEqSpecImpl for Client {
    open spec fn obeys_eq_spec() -> bool {
        true
    }

    open spec fn eq_spec(&self, other: &Client) -> bool {
        self@ == other@
    }
}

/// The origin of a server-delivered message: the server itself, known by
/// one name, or a peer.
#[derive(Debug, Clone, PartialEq)]
pub enum Entity {
    Server(Vec<u8>),
    Client(Client),
}

/// Ghost record of an `Entity`.
#[verifier::ext_equal]
pub enum EntityV {
    Server(Seq<u8>),
    Client(ClientV),
}

impl View for Entity {
    type V = EntityV;

    open spec fn view(&self) -> EntityV {
        match self {
            Entity::Server(name) => EntityV::Server(name@),
            Entity::Client(c) => EntityV::Client(c@),
        }
    }
}

/// The payload of a server-delivered message, classified by its command
/// token.
#[derive(Debug, Clone, PartialEq)]
pub enum IRCMessageType {
    NOTICE(Vec<u8>),
    MODE(Vec<u8>),
    PRIVMSG(Vec<u8>),
    INFO(u64),
}

/// Ghost record of an `IRCMessageType`.
#[verifier::ext_equal]
pub enum MsgTypeV {
    NOTICE(Seq<u8>),
    MODE(Seq<u8>),
    PRIVMSG(Seq<u8>),
    INFO(u64),
}

impl View for IRCMessageType {
    type V = MsgTypeV;

    open spec fn view(&self) -> MsgTypeV {
        match self {
            IRCMessageType::NOTICE(s) => MsgTypeV::NOTICE(s@),
            IRCMessageType::MODE(s) => MsgTypeV::MODE(s@),
            IRCMessageType::PRIVMSG(s) => MsgTypeV::PRIVMSG(s@),
            IRCMessageType::INFO(i) => MsgTypeV::INFO(*i),
        }
    }
}

/// One successfully parsed server-origin line.
#[derive(Debug, Clone, PartialEq)]
pub struct IRCServerMessage {
    pub from: Entity,
    pub message: IRCMessageType,
    pub time: i64,
    pub raw: Vec<u8>,
    pub target: Vec<u8>,
}

/// Ghost record of an `IRCServerMessage`. The receipt timestamp is not
/// part of it: no transition of the engine or the agent reads it.
#[verifier::ext_equal]
pub struct ServerMsgV {
    pub from: EntityV,
    pub message: MsgTypeV,
    pub raw: Seq<u8>,
    pub target: Seq<u8>,
}

impl View for IRCServerMessage {
    type V = ServerMsgV;

    open spec fn view(&self) -> ServerMsgV {
        ServerMsgV {
            from: self.from@,
            message: self.message@,
            raw: self.raw@,
            target: self.target@,
        }
    }
}

/// A keep-alive challenge from the remote server.
#[derive(Debug, Clone, PartialEq)]
pub struct IRCPing {
    pub time: i64,
}

/// Any successfully parsed inbound line.
#[derive(Debug, Clone, PartialEq)]
pub enum IRCMessage {
    IRCServerMessage(IRCServerMessage),
    IRCPing(IRCPing),
}

/// Ghost record of an `IRCMessage`, without receipt timestamps.
#[verifier::ext_equal]
pub enum MessageV {
    ServerMessage(ServerMsgV),
    Ping,
}

impl View for IRCMessage {
    type V = MessageV;

    open spec fn view(&self) -> MessageV {
        match self {
            IRCMessage::IRCServerMessage(m) => MessageV::ServerMessage(m@),
            IRCMessage::IRCPing(_) => MessageV::Ping,
        }
    }
}

/// The receipt timestamp carried by a parsed message.
pub open spec fn msg_time(m: IRCMessage) -> i64 {
    match m {
        IRCMessage::IRCServerMessage(sm) => sm.time,
        IRCMessage::IRCPing(p) => p.time,
    }
}

pub fn clone_client(c: &Client) -> (r: Client)
    ensures
        r@ == c@,
{
    Client {
        nick: clone_bytes(&c.nick),
        username: clone_bytes(&c.username),
        address: clone_bytes(&c.address),
    }
}

pub fn clone_entity(e: &Entity) -> (r: Entity)
    ensures
        r@ == e@,
{
    match e {
        Entity::Server(name) => Entity::Server(clone_bytes(name)),
        Entity::Client(c) => Entity::Client(clone_client(c)),
    }
}

pub fn clone_msgtype(m: &IRCMessageType) -> (r: IRCMessageType)
    ensures
        r@ == m@,
{
    match m {
        IRCMessageType::NOTICE(s) => IRCMessageType::NOTICE(clone_bytes(s)),
        IRCMessageType::MODE(s) => IRCMessageType::MODE(clone_bytes(s)),
        IRCMessageType::PRIVMSG(s) => IRCMessageType::PRIVMSG(clone_bytes(s)),
        IRCMessageType::INFO(i) => IRCMessageType::INFO(*i),
    }
}

pub fn clone_server_message(m: &IRCServerMessage) -> (r: IRCServerMessage)
    ensures
        r@ == m@,
        r.time == m.time,
{
    IRCServerMessage {
        from: clone_entity(&m.from),
        message: clone_msgtype(&m.message),
        time: m.time,
        raw: clone_bytes(&m.raw),
        target: clone_bytes(&m.target),
    }
}

pub fn clone_message(m: &IRCMessage) -> (r: IRCMessage)
    ensures
        r@ == m@,
        msg_time(r) == msg_time(*m),
{
    match m {
        IRCMessage::IRCServerMessage(sm) => IRCMessage::IRCServerMessage(
            clone_server_message(sm),
        ),
        IRCMessage::IRCPing(p) => IRCMessage::IRCPing(IRCPing { time: p.time }),
    }
}

/// Handshake progression of one connection: the nickname this engine
/// announced, the canonical server address learned from the first
/// server-origin message, and whether the identification sequence has
/// been sent. The flag never returns to `false`.
#[derive(Debug)]
pub struct ConnectionState {
    pub nick: Vec<u8>,
    pub server_address: Vec<u8>,
    pub identified: bool,
}

/// Ghost record of a `ConnectionState`.
#[verifier::ext_equal]
pub struct ConnStateV {
    pub nick: Seq<u8>,
    pub server_address: Seq<u8>,
    pub identified: bool,
}

impl View for ConnectionState {
    type V = ConnStateV;

    open spec fn view(&self) -> ConnStateV {
        ConnStateV {
            nick: self.nick@,
            server_address: self.server_address@,
            identified: self.identified,
        }
    }
}

/// One wire command: name, space, argument, space, terminator.
pub open spec fn encode_command_spec(cmd: Seq<u8>, message: Seq<u8>) -> Seq<u8> {
    cmd + seq![SPACE] + message + seq![SPACE, CR, LF]
}

/// The argument of the user declaration: username, the fixed mode and
/// unused fields, then the real name as free text.
pub open spec fn user_arg(username: Seq<u8>, realname: Seq<u8>) -> Seq<u8> {
    username + seq![SPACE, 48u8, SPACE, 42u8, SPACE, COLON] + realname
}

/// The argument of a content delivery: target, then the text as free
/// text.
pub open spec fn privmsg_arg(target: Seq<u8>, message: Seq<u8>) -> Seq<u8> {
    target + seq![SPACE, COLON] + message
}

/// The identity-announcement sequence: the nickname declaration, then
/// the username/real-name declaration, in that order.
pub open spec fn identify_lines(c: ConfigV) -> Seq<Seq<u8>> {
    seq![
        encode_command_spec(nick_word(), c.nick),
        encode_command_spec(user_word(), user_arg(c.username, c.realname)),
    ]
}

/// The engine for one connection: configuration, handshake state, the
/// reactive agent, the line framer, and the queue of outbound wire
/// lines awaiting the transport.
#[derive(Debug)]
pub struct IRC {
    pub config: Config,
    pub conn_state: ConnectionState,
    pub bot: Bot,
    pub framer: LineFramer,
    pub out: Vec<Vec<u8>>,
}

/// Ghost record of the whole engine.
#[verifier::ext_equal]
pub struct EngineV {
    pub config: ConfigV,
    pub conn: ConnStateV,
    pub bot: BotV,
    pub out: Seq<Seq<u8>>,
    pub buf: Seq<u8>,
}

impl View for IRC {
    type V = EngineV;

    open spec fn view(&self) -> EngineV {
        EngineV {
            config: self.config@,
            conn: self.conn_state@,
            bot: self.bot@,
            out: Seq::new(self.out@.len(), |i: int| self.out@[i]@),
            buf: self.framer.buf@,
        }
    }
}

/// What one server-origin event does to the engine itself: the first
/// one with a server-typed origin records the canonical address and
/// emits the identity announcement, exactly once; every other one
/// changes nothing here.
pub open spec fn server_msg_step(e: EngineV, m: ServerMsgV) -> EngineV {
    if !e.conn.identified {
        match m.from {
            EntityV::Server(s) => EngineV {
                conn: ConnStateV { nick: e.config.nick, server_address: s, identified: true },
                out: e.out + identify_lines(e.config),
                ..e
            },
            EntityV::Client(_) => e,
        }
    } else {
        e
    }
}

/// What one framed line does to the whole engine: an empty or
/// unparseable line changes nothing, a keep-alive challenge is answered
/// at once toward the recorded canonical address, and a server-origin
/// event drives the handshake and then the agent, which sees the
/// already-updated connection state.
pub open spec fn line_step(e: EngineV, line: Seq<u8>) -> EngineV {
    if line.len() < 1 {
        e
    } else {
        match parse_line_spec(line) {
            None => e,
            Some(MessageV::Ping) => EngineV {
                out: e.out.push(encode_command_spec(pong_word(), e.conn.server_address)),
                ..e
            },
            Some(MessageV::ServerMessage(m)) => {
                let e1 = server_msg_step(e, m);
                EngineV { bot: handle_message_tr(e1.bot, MessageV::ServerMessage(m), e1.conn), ..e1 }
            },
        }
    }
}

/// The lines of one chunk, applied in order.
pub open spec fn lines_step(e: EngineV, lines: Seq<Seq<u8>>) -> EngineV
    decreases lines.len(),
{
    if lines.len() == 0 {
        e
    } else {
        lines_step(line_step(e, lines[0]), lines.drop_first())
    }
}

/// The wire command one drained job becomes.
pub open spec fn job_line(j: JobV) -> Seq<u8> {
    match j {
        JobV::Join(c) => encode_command_spec(join_word(), c),
        JobV::PrivMsg(n, m) => encode_command_spec(privmsg_word(), privmsg_arg(n, m)),
    }
}

/// The wire commands of at most one drained job.
pub open spec fn job_lines_opt(j: Option<JobV>) -> Seq<Seq<u8>> {
    match j {
        None => Seq::empty(),
        Some(jv) => seq![job_line(jv)],
    }
}

/// What draining at most one job does: the front job, if any, leaves
/// the queue and becomes one wire command.
pub open spec fn drain_step(e: EngineV) -> EngineV {
    if e.bot.jobs.len() == 0 {
        e
    } else {
        EngineV {
            bot: BotV { jobs: e.bot.jobs.drop_first(), ..e.bot },
            out: e.out.push(job_line(e.bot.jobs[0])),
            ..e
        }
    }
}

/// One engine iteration on one chunk of raw bytes: frame, process every
/// complete line in order, then drain at most one queued job.
pub open spec fn step_spec(e: EngineV, input: Seq<u8>) -> EngineV {
    let total = e.buf + input;
    drain_step(lines_step(EngineV { buf: framer_rest(total), ..e }, complete_lines(total)))
}

impl IRC {
    /// Queue one already-framed wire line for the transport.
    pub fn send_raw(&mut self, message: Vec<u8>)
        ensures
            final(self)@ == (EngineV { out: old(self)@.out.push(message@), ..old(self)@ }),
    {
        self.out.push(message);
        proof {
            assert(self@.out =~= old(self)@.out.push(message@));
            assert(self@ =~= (EngineV { out: old(self)@.out.push(message@), ..old(self)@ }));
        }
    }

    /// Frame one command with its argument and queue it.
    pub fn send_command(&mut self, cmd: &Vec<u8>, message: &Vec<u8>)
        ensures
            final(self)@ == (EngineV {
                out: old(self)@.out.push(encode_command_spec(cmd@, message@)),
                ..old(self)@
            }),
    {
        let mut line = clone_bytes(cmd);
        line.push(SPACE);
        append_bytes(&mut line, message);
        line.push(SPACE);
        line.push(CR);
        line.push(LF);
        proof {
            assert(line@ =~= encode_command_spec(cmd@, message@));
        }
        self.send_raw(line);
    }

    /// Declare the configured nickname and record it as negotiated.
    pub fn nick(&mut self)
        ensures
            final(self)@ == (EngineV {
                conn: ConnStateV { nick: old(self)@.config.nick, ..old(self)@.conn },
                out: old(self)@.out.push(
                    encode_command_spec(nick_word(), old(self)@.config.nick),
                ),
                ..old(self)@
            }),
    {
        let nick = clone_bytes(&self.config.nick);
        let w = nick_word_vec();
        self.send_command(&w, &nick);
        self.conn_state.nick = nick;
        proof {
            assert(self@ =~= (EngineV {
                conn: ConnStateV { nick: old(self)@.config.nick, ..old(self)@.conn },
                out: old(self)@.out.push(
                    encode_command_spec(nick_word(), old(self)@.config.nick),
                ),
                ..old(self)@
            }));
        }
    }

    /// Declare the configured username and real name.
    pub fn user(&mut self)
        ensures
            final(self)@ == (EngineV {
                out: old(self)@.out.push(
                    encode_command_spec(
                        user_word(),
                        user_arg(old(self)@.config.username, old(self)@.config.realname),
                    ),
                ),
                ..old(self)@
            }),
    {
        let mut message = clone_bytes(&self.config.username);
        message.push(SPACE);
        message.push(48);
        message.push(SPACE);
        message.push(42);
        message.push(SPACE);
        message.push(COLON);
        append_bytes(&mut message, &self.config.realname);
        proof {
            assert(message@ =~= user_arg(self@.config.username, self@.config.realname));
        }
        let w = user_word_vec();
        self.send_command(&w, &message);
    }

    /// The identity announcement: nickname, then username/real name.
    pub fn identify(&mut self)
        ensures
            final(self)@ == (EngineV {
                conn: ConnStateV { nick: old(self)@.config.nick, ..old(self)@.conn },
                out: old(self)@.out + identify_lines(old(self)@.config),
                ..old(self)@
            }),
    {
        self.nick();
        self.user();
        proof {
            assert(self@.out =~= old(self)@.out + identify_lines(old(self)@.config));
            assert(self@ =~= (EngineV {
                conn: ConnStateV { nick: old(self)@.config.nick, ..old(self)@.conn },
                out: old(self)@.out + identify_lines(old(self)@.config),
                ..old(self)@
            }));
        }
    }

    /// Queue one content delivery toward a target.
    pub fn priv_msg(&mut self, target: &Vec<u8>, message: &Vec<u8>)
        ensures
            final(self)@ == (EngineV {
                out: old(self)@.out.push(
                    encode_command_spec(privmsg_word(), privmsg_arg(target@, message@)),
                ),
                ..old(self)@
            }),
    {
        let mut arg = clone_bytes(target);
        arg.push(SPACE);
        arg.push(COLON);
        append_bytes(&mut arg, message);
        proof {
            assert(arg@ =~= privmsg_arg(target@, message@));
        }
        let w = privmsg_word_vec();
        self.send_command(&w, &arg);
    }

    /// Queue one channel join.
    pub fn join(&mut self, channel: &Vec<u8>)
        ensures
            final(self)@ == (EngineV {
                out: old(self)@.out.push(encode_command_spec(join_word(), channel@)),
                ..old(self)@
            }),
    {
        let w = join_word_vec();
        self.send_command(&w, channel);
    }

    /// Answer a keep-alive challenge toward the recorded canonical
    /// address, which is still empty before the first server-origin
    /// event.
    pub fn handle_ping(&mut self, ping: IRCPing)
        ensures
            final(self)@ == (EngineV {
                out: old(self)@.out.push(
                    encode_command_spec(pong_word(), old(self)@.conn.server_address),
                ),
                ..old(self)@
            }),
    {
        let _ = ping;
        let server_address = clone_bytes(&self.conn_state.server_address);
        let w = pong_word_vec();
        self.send_command(&w, &server_address);
    }

    /// Drive the handshake with one server-origin event.
    pub fn process_server_message(&mut self, message: IRCServerMessage)
        ensures
            final(self)@ == server_msg_step(old(self)@, message@),
    {
        if !self.conn_state.identified {
            match message.from {
                Entity::Server(s) => {
                    self.conn_state.server_address = s;
                    self.identify();
                    self.conn_state.identified = true;
                    proof {
                        assert(self@ =~= server_msg_step(old(self)@, message@));
                    }
                },
                _ => {},
            }
        }
    }

    /// Translate at most one drained job into its wire command.
    pub fn handle_bot_job(&mut self, bot_job: Option<BotJob>)
        ensures
            final(self)@ == (EngineV {
                out: old(self)@.out + job_lines_opt(opt_job_view(bot_job)),
                ..old(self)@
            }),
    {
        let bot_job = match bot_job {
            Some(j) => j,
            None => {
                proof {
                    assert(self@.out =~= self@.out + job_lines_opt(opt_job_view(None)));
                    assert(self@ =~= (EngineV {
                        out: self@.out + job_lines_opt(opt_job_view(None)),
                        ..self@
                    }));
                }
                return ;
            },
        };
        match bot_job {
            BotJob::Join(channel) => {
                self.join(&channel);
            },
            BotJob::PrivMsg(t) => {
                self.priv_msg(&t.0, &t.1);
            },
        }
        proof {
            assert(self@.out =~= old(self)@.out + job_lines_opt(opt_job_view(Some(bot_job))));
            assert(self@ =~= (EngineV {
                out: old(self)@.out + job_lines_opt(opt_job_view(Some(bot_job))),
                ..old(self)@
            }));
        }
    }

    /// Parse and dispatch one framed line: the engine reacts first, then
    /// the agent sees the same message with the updated connection
    /// state. An unparseable line is dropped here.
    pub fn process_line(&mut self, line: &Vec<u8>)
        ensures
            final(self)@ == line_step(old(self)@, line@),
    {
        if line.len() < 1 {
            return ;
        }
        let now = now_seconds();
        let message = match parse_line(line, now) {
            Some(m) => m,
            None => {
                return ;
            },
        };
        let bot_message = clone_message(&message);
        match message {
            IRCMessage::IRCServerMessage(m) => self.process_server_message(m),
            IRCMessage::IRCPing(p) => self.handle_ping(p),
        }
        self.bot.handle_message(bot_message, &self.conn_state);
        proof {
            assert(self@ =~= line_step(old(self)@, line@));
        }
    }

    /// One engine iteration on one chunk of raw bytes from the
    /// transport: frame it, process every complete line in order, then
    /// drain at most one queued job.
    pub fn step(&mut self, input: &Vec<u8>)
        ensures
            final(self)@ == step_spec(old(self)@, input@),
    {
        let ghost total = old(self)@.buf + input@;
        let lines = self.framer.feed(input);
        proof {
            assert(self@ =~= (EngineV { buf: framer_rest(total), ..old(self)@ }));
        }
        let ghost lines_v = Seq::new(lines@.len(), |i: int| lines@[i]@);
        let ghost e_start = self@;
        let n = lines.len();
        let mut i: usize = 0;
        proof {
            assert(lines_v.skip(0) =~= lines_v);
        }
        while i < n
            invariant
                n == lines@.len(),
                0 <= i <= n,
                lines_v == Seq::new(lines@.len(), |j: int| lines@[j]@),
                lines_step(e_start, lines_v) == lines_step(self@, lines_v.skip(i as int)),
            decreases n - i,
        {
            let ghost e_before = self@;
            self.process_line(&lines[i]);
            proof {
                assert(lines_v.skip(i as int)[0] == lines@[i as int]@);
                assert(lines_v.skip(i as int).drop_first() =~= lines_v.skip(i + 1));
                assert(lines_step(e_before, lines_v.skip(i as int)) == lines_step(
                    self@,
                    lines_v.skip(i + 1),
                ));
            }
            i = i + 1;
        }
        proof {
            assert(lines_v.skip(n as int) =~= Seq::<Seq<u8>>::empty());
            assert(self@ == lines_step(e_start, lines_v));
        }
        let ghost e_lines = self@;
        let job = self.bot.get_job();
        proof {
            assert(self@.bot.jobs == e_lines.bot.jobs || self@.bot.jobs == e_lines.bot.jobs.drop_first());
        }
        self.handle_bot_job(job);
        proof {
            if e_lines.bot.jobs.len() == 0 {
                assert(self@ =~= drain_step(e_lines));
            } else {
                assert(opt_job_view(job) == Some(e_lines.bot.jobs[0]));
                assert(self@ =~= drain_step(e_lines));
            }
            assert(self@ =~= step_spec(old(self)@, input@));
        }
    }
}

/// An empty or unparseable line leaves the whole engine unchanged: the
/// next line is processed from exactly the same state, so one dropped
/// line never stalls the connection.
pub proof fn lemma_unparseable_line_ignored(e: EngineV, line: Seq<u8>)
    requires
        parse_line_spec(line) is None,
    ensures
        line_step(e, line) == e,
{
}

/// A keep-alive challenge triggers exactly one acknowledgment, toward
/// the currently recorded canonical server address, and changes nothing
/// else anywhere in the engine.
pub proof fn lemma_keep_alive(e: EngineV, line: Seq<u8>)
    requires
        parse_line_spec(line) == Some(MessageV::Ping),
    ensures
        line_step(e, line) == (EngineV {
            out: e.out.push(encode_command_spec(pong_word(), e.conn.server_address)),
            ..e
        }),
{
    assert(line.len() >= 3);
}

/// The first server-origin event with a server-typed origin flips the
/// state to identified, records that server's name as the canonical
/// address, and emits exactly two commands — the nickname declaration,
/// then the username/real-name declaration — before any queued job is
/// drained; the agent then sees the already-updated state.
pub proof fn lemma_handshake(e: EngineV, line: Seq<u8>, m: ServerMsgV, name: Seq<u8>)
    requires
        !e.conn.identified,
        parse_line_spec(line) == Some(MessageV::ServerMessage(m)),
        m.from == EntityV::Server(name),
    ensures
        line_step(e, line).conn.identified,
        line_step(e, line).conn.server_address == name,
        line_step(e, line).conn.nick == e.config.nick,
        line_step(e, line).out == e.out + identify_lines(e.config),
        identify_lines(e.config).len() == 2,
        identify_lines(e.config)[0] == encode_command_spec(nick_word(), e.config.nick),
        identify_lines(e.config)[1] == encode_command_spec(
            user_word(),
            user_arg(e.config.username, e.config.realname),
        ),
{
    assert(line.len() >= 3);
}

/// Once identified, no later server-origin event re-triggers the
/// handshake: the connection state never regresses and the engine
/// itself sends nothing for such an event.
pub proof fn lemma_handshake_once(e: EngineV, line: Seq<u8>, m: ServerMsgV)
    requires
        e.conn.identified,
        parse_line_spec(line) == Some(MessageV::ServerMessage(m)),
    ensures
        line_step(e, line).conn == e.conn,
        line_step(e, line).out == e.out,
{
    assert(line.len() >= 3);
}

/// The handshake never regresses: once identified, the engine stays
/// identified and keeps its canonical server address, whatever line
/// arrives.
pub proof fn lemma_identified_is_stable(e: EngineV, line: Seq<u8>)
    requires
        e.conn.identified,
    ensures
        line_step(e, line).conn.identified,
        line_step(e, line).conn.server_address == e.conn.server_address,
{
}

/// A fresh engine for one endpoint, not yet identified, with nothing
/// buffered and nothing queued.
pub fn new(config: &Config, bot: Bot) -> (r: IRC)
    ensures
        r@.config == config@,
        r@.bot == bot@,
        r@.conn.nick == Seq::<u8>::empty(),
        r@.conn.server_address == Seq::<u8>::empty(),
        r@.conn.identified == false,
        r@.out == Seq::<Seq<u8>>::empty(),
        r@.buf == Seq::<u8>::empty(),
{
    let r = IRC {
        config: crate::config::clone_config(config),
        conn_state: ConnectionState {
            nick: Vec::new(),
            server_address: Vec::new(),
            identified: false,
        },
        bot,
        framer: LineFramer::new(),
        out: Vec::new(),
    };
    proof {
        assert(r@.out =~= Seq::<Seq<u8>>::empty());
    }
    r
}

} // verus!

