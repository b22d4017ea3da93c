//! The reactive agent: it watches every parsed message, keeps a small
//! state of its own (whether channels were joined, who authenticated as
//! the operator), and queues outbound intents on a strict FIFO that the
//! engine drains one job per iteration.

use vstd::prelude::*;
use crate::bytes::{bytes_eq, clone_bytes, opt_bytes_view, split_first_at, split_head, split_tail, subvec};
use crate::config::{clone_config, Config, ConfigV, Server, ServerV};
use crate::irc::{
    clone_client, clone_entity, clone_msgtype, Client, ClientV, ConnectionState, ConnStateV,
    Entity, EntityV, IRCMessage, IRCMessageType, IRCServerMessage, MessageV, MsgTypeV,
    ServerMsgV, SPACE,
};

verus! {

/// The bytes of `"auth"`.
pub open spec fn auth_word() -> Seq<u8> {
    seq![97u8, 117u8, 116u8, 104u8]
}

/// The bytes of `"botsnack"`.
pub open spec fn botsnack_word() -> Seq<u8> {
    seq![98u8, 111u8, 116u8, 115u8, 110u8, 97u8, 99u8, 107u8]
}

/// The bytes of `"Authed!"`.
pub open spec fn authed_text() -> Seq<u8> {
    seq![65u8, 117u8, 116u8, 104u8, 101u8, 100u8, 33u8]
}

/// The bytes of `"Not authed. :("`.
pub open spec fn not_authed_text() -> Seq<u8> {
    seq![78u8, 111u8, 116u8, 32u8, 97u8, 117u8, 116u8, 104u8, 101u8, 100u8, 46u8, 32u8, 58u8, 40u8]
}

/// The bytes of `":)"`.
pub open spec fn smiley_text() -> Seq<u8> {
    seq![58u8, 41u8]
}

pub fn auth_word_vec() -> (v: Vec<u8>)
    ensures
        v@ == auth_word(),
{
    let mut v: Vec<u8> = Vec::new();
    v.push(97);
    v.push(117);
    v.push(116);
    v.push(104);
    proof {
        assert(v@ =~= auth_word());
    }
    v
}

pub fn botsnack_word_vec() -> (v: Vec<u8>)
    ensures
        v@ == botsnack_word(),
{
    let mut v: Vec<u8> = Vec::new();
    v.push(98);
    v.push(111);
    v.push(116);
    v.push(115);
    v.push(110);
    v.push(97);
    v.push(99);
    v.push(107);
    proof {
        assert(v@ =~= botsnack_word());
    }
    v
}

pub fn authed_text_vec() -> (v: Vec<u8>)
    ensures
        v@ == authed_text(),
{
    let mut v: Vec<u8> = Vec::new();
    v.push(65);
    v.push(117);
    v.push(116);
    v.push(104);
    v.push(101);
    v.push(100);
    v.push(33);
    proof {
        assert(v@ =~= authed_text());
    }
    v
}

pub fn not_authed_text_vec() -> (v: Vec<u8>)
    ensures
        v@ == not_authed_text(),
{
    let mut v: Vec<u8> = Vec::new();
    v.push(78);
    v.push(111);
    v.push(116);
    v.push(32);
    v.push(97);
    v.push(117);
    v.push(116);
    v.push(104);
    v.push(101);
    v.push(100);
    v.push(46);
    v.push(32);
    v.push(58);
    v.push(40);
    proof {
        assert(v@ =~= not_authed_text());
    }
    v
}

pub fn smiley_text_vec() -> (v: Vec<u8>)
    ensures
        v@ == smiley_text(),
{
    let mut v: Vec<u8> = Vec::new();
    v.push(58);
    v.push(41);
    proof {
        assert(v@ =~= smiley_text());
    }
    v
}

/// An outbound intent: join a channel, or deliver a line of text to a
/// target. The engine translates each into exactly one wire command.
#[derive(Debug, PartialEq)]
pub enum BotJob {
    Join(Vec<u8>),
    PrivMsg((Vec<u8>, Vec<u8>)),
}

/// Ghost record of a `BotJob`.
#[verifier::ext_equal]
pub enum JobV {
    Join(Seq<u8>),
    PrivMsg(Seq<u8>, Seq<u8>),
}

impl View for BotJob {
    type V = JobV;

    open spec fn view(&self) -> JobV {
        match self {
            BotJob::Join(c) => JobV::Join(c@),
            BotJob::PrivMsg(t) => JobV::PrivMsg(t.0@, t.1@),
        }
    }
}

/// The agent's own mutable state.
#[derive(Debug)]
pub struct BotState {
    pub connected: bool,
    pub admin: Option<Client>,
}

/// The reactive agent.
#[derive(Debug)]
pub struct Bot {
    pub config: Config,
    pub server: Server,
    pub job_queue: Vec<BotJob>,
    pub bot_state: BotState,
}

/// Ghost record of a `Bot`.
#[verifier::ext_equal]
pub struct BotV {
    pub config: ConfigV,
    pub server: ServerV,
    pub jobs: Seq<JobV>,
    pub connected: bool,
    pub admin: Option<ClientV>,
}

impl View for Bot {
    type V = BotV;

    open spec fn view(&self) -> BotV {
        BotV {
            config: self.config@,
            server: self.server@,
            jobs: Seq::new(self.job_queue@.len(), |i: int| self.job_queue@[i]@),
            connected: self.bot_state.connected,
            admin: match self.bot_state.admin {
                Some(c) => Some(c@),
                None => None,
            },
        }
    }
}

/// View of an optional job.
pub open spec fn opt_job_view(r: Option<BotJob>) -> Option<JobV> {
    match r {
        Some(j) => Some(j@),
        None => None,
    }
}

/// What queueing a reply does: a reply whose target is this engine's own
/// nickname goes back to the speaking peer instead; a reply to anything
/// not peer-origin is discarded.
pub open spec fn msg_tr(
    b: BotV,
    target: Seq<u8>,
    from: EntityV,
    message: Seq<u8>,
    cs: ConnStateV,
) -> BotV {
    match from {
        EntityV::Client(c) => {
            let nick = if cs.nick == target {
                c.nick
            } else {
                target
            };
            BotV { jobs: b.jobs.push(JobV::PrivMsg(nick, message)), ..b }
        },
        EntityV::Server(_) => b,
    }
}

/// What an authentication attempt does: a correct secret from a peer
/// records that peer as the operator and acknowledges; a correct secret
/// from a non-peer origin does nothing; anything else is refused aloud.
pub open spec fn auth_tr(b: BotV, m: ServerMsgV, args: Option<Seq<u8>>, cs: ConnStateV) -> BotV {
    match args {
        Some(p) => if p == b.config.admin_password {
            match m.from {
                EntityV::Client(c) => msg_tr(
                    BotV { admin: Some(c), ..b },
                    m.target,
                    m.from,
                    authed_text(),
                    cs,
                ),
                EntityV::Server(_) => b,
            }
        } else {
            msg_tr(b, m.target, m.from, not_authed_text(), cs)
        },
        None => msg_tr(b, m.target, m.from, not_authed_text(), cs),
    }
}

/// The speaking entity is the recorded operator.
pub open spec fn authed_spec(b: BotV, from: EntityV) -> bool {
    match (from, b.admin) {
        (EntityV::Client(c), Some(a)) => a == c,
        _ => false,
    }
}

/// What a treat request does: only the recorded operator is answered.
pub open spec fn botsnack_tr(b: BotV, m: ServerMsgV, cs: ConnStateV) -> BotV {
    if authed_spec(b, m.from) {
        msg_tr(b, m.target, m.from, smiley_text(), cs)
    } else {
        b
    }
}

/// What a content-delivery body does: a body that does not open with the
/// configured command byte is ignored; otherwise the first token after
/// it selects a command and the rest is its argument. An empty body is
/// ignored rather than read out of bounds.
pub open spec fn handle_privmsg_tr(b: BotV, privmsg: Seq<u8>, m: ServerMsgV, cs: ConnStateV) -> BotV {
    if privmsg.len() == 0 {
        b
    } else if privmsg[0] != b.config.command_byte {
        b
    } else {
        let rest = privmsg.skip(1);
        let command = split_head(rest, SPACE);
        let args = split_tail(rest, SPACE);
        if command == auth_word() {
            auth_tr(b, m, args, cs)
        } else if command == botsnack_word() {
            botsnack_tr(b, m, cs)
        } else {
            b
        }
    }
}

/// One join intent per configured channel.
pub open spec fn join_jobs(channels: Seq<Seq<u8>>) -> Seq<JobV> {
    channels.map_values(|c: Seq<u8>| JobV::Join(c))
}

/// What one server-origin event does to the agent: a content delivery is
/// dispatched on its body; the first informational code above 10 queues
/// a join for every configured channel, once; everything else is
/// ignored.
pub open spec fn process_server_message_tr(b: BotV, m: ServerMsgV, cs: ConnStateV) -> BotV {
    match m.message {
        MsgTypeV::PRIVMSG(p) => handle_privmsg_tr(b, p, m, cs),
        MsgTypeV::INFO(i) => if i > 10 && !b.connected {
            BotV { connected: true, jobs: b.jobs + join_jobs(b.server.channels), ..b }
        } else {
            b
        },
        _ => b,
    }
}

/// What any parsed message does to the agent: keep-alive challenges are
/// the engine's business and leave the agent unchanged.
pub open spec fn handle_message_tr(b: BotV, m: MessageV, cs: ConnStateV) -> BotV {
    match m {
        MessageV::ServerMessage(sm) => process_server_message_tr(b, sm, cs),
        MessageV::Ping => b,
    }
}

impl Bot {
    pub fn handle_message(&mut self, message: IRCMessage, conn_state: &ConnectionState)
        ensures
            final(self)@ == handle_message_tr(old(self)@, message@, conn_state@),
    {
        match message {
            IRCMessage::IRCServerMessage(m) => self.process_server_message(m, conn_state),
            _ => {},
        }
    }

    pub fn get_job(&mut self) -> (r: Option<BotJob>)
        ensures
            old(self)@.jobs.len() == 0 ==> r is None && *final(self) == *old(self),
            old(self)@.jobs.len() > 0 ==> r == Some(old(self).job_queue@[0]) && final(self)@
                == (BotV { jobs: old(self)@.jobs.drop_first(), ..old(self)@ }),
    {
        if self.job_queue.len() < 1 {
            return None;
        }
        let job = self.job_queue.remove(0);
        proof {
            assert(self@.jobs =~= old(self)@.jobs.drop_first());
            assert(self@ =~= (BotV { jobs: old(self)@.jobs.drop_first(), ..old(self)@ }));
        }
        Some(job)
    }

    pub fn process_server_message(&mut self, message: IRCServerMessage, conn_state: &ConnectionState)
        ensures
            final(self)@ == process_server_message_tr(old(self)@, message@, conn_state@),
    {
        let message_data = clone_msgtype(&message.message);
        match message_data {
            IRCMessageType::PRIVMSG(m) => {
                self.handle_privmsg(&m, message, conn_state);
            },
            IRCMessageType::INFO(i) => {
                if i > 10 && !self.bot_state.connected {
                    self.bot_state.connected = true;
                    let n = self.server.channels.len();
                    let mut idx: usize = 0;
                    proof {
                        assert(self@.jobs =~= old(self)@.jobs + join_jobs(
                            old(self)@.server.channels.take(0),
                        ));
                    }
                    while idx < n
                        invariant
                            n == self.server.channels@.len(),
                            0 <= idx <= n,
                            self.config == old(self).config,
                            self.server == old(self).server,
                            self.bot_state.connected == true,
                            self.bot_state.admin == old(self).bot_state.admin,
                            self@.jobs == old(self)@.jobs + join_jobs(
                                old(self)@.server.channels.take(idx as int),
                            ),
                        decreases n - idx,
                    {
                        let c = clone_bytes(&self.server.channels[idx]);
                        let ghost prev = self@.jobs;
                        self.job_queue.push(BotJob::Join(c));
                        proof {
                            let chans = old(self)@.server.channels;
                            assert(c@ == chans[idx as int]);
                            assert(self@.jobs =~= prev.push(JobV::Join(chans[idx as int])));
                            assert(join_jobs(chans.take(idx + 1)) =~= join_jobs(
                                chans.take(idx as int),
                            ).push(JobV::Join(chans[idx as int])));
                            assert(old(self)@.jobs + join_jobs(chans.take(idx + 1)) =~= prev.push(
                                JobV::Join(chans[idx as int]),
                            ));
                        }
                        idx = idx + 1;
                    }
                    proof {
                        assert(old(self)@.server.channels.take(n as int) =~= old(
                            self,
                        )@.server.channels);
                        assert(self@ =~= process_server_message_tr(
                            old(self)@,
                            message@,
                            conn_state@,
                        ));
                    }
                }
            },
            _ => {},
        }
    }

    pub fn msg(
        &mut self,
        target: Vec<u8>,
        from: Entity,
        message: &Vec<u8>,
        conn_state: &ConnectionState,
    )
        ensures
            final(self)@ == msg_tr(old(self)@, target@, from@, message@, conn_state@),
    {
        let client = match from {
            Entity::Client(c) => c,
            _ => {
                return ;
            },
        };
        let mut nick = target;
        if bytes_eq(&conn_state.nick, &nick) {
            nick = client.nick;
        }
        let m2 = clone_bytes(message);
        self.job_queue.push(BotJob::PrivMsg((nick, m2)));
        proof {
            assert(self@.jobs =~= msg_tr(old(self)@, target@, from@, message@, conn_state@).jobs);
            assert(self@ =~= msg_tr(old(self)@, target@, from@, message@, conn_state@));
        }
    }

    pub fn handle_privmsg(
        &mut self,
        privmsg: &Vec<u8>,
        message: IRCServerMessage,
        conn_state: &ConnectionState,
    )
        ensures
            final(self)@ == handle_privmsg_tr(old(self)@, privmsg@, message@, conn_state@),
    {
        if privmsg.len() == 0 {
            return ;
        }
        if privmsg[0] != self.config.command_byte {
            return ;
        }
        let command_bytes = subvec(privmsg, 1, privmsg.len());
        proof {
            assert(command_bytes@ =~= privmsg@.skip(1));
        }
        let (command, rest) = split_first_at(&command_bytes, SPACE);
        let auth_w = auth_word_vec();
        if bytes_eq(&command, &auth_w) {
            self.auth(message, rest, conn_state);
            return ;
        }
        let botsnack_w = botsnack_word_vec();
        if bytes_eq(&command, &botsnack_w) {
            self.botsnack(message, conn_state);
            return ;
        }
    }

    pub fn auth(
        &mut self,
        message: IRCServerMessage,
        args: Option<Vec<u8>>,
        conn_state: &ConnectionState,
    )
        ensures
            final(self)@ == auth_tr(old(self)@, message@, opt_bytes_view(args), conn_state@),
    {
        let target = clone_bytes(&message.target);
        let from = clone_entity(&message.from);
        match args {
            Some(p) => {
                if bytes_eq(&p, &self.config.admin_password) {
                    match &message.from {
                        Entity::Client(c) => {
                            let cc = clone_client(c);
                            self.bot_state.admin = Some(cc);
                            let txt = authed_text_vec();
                            self.msg(target, from, &txt, conn_state);
                        },
                        Entity::Server(_) => {},
                    }
                    return ;
                }
            },
            None => {},
        }
        let txt = not_authed_text_vec();
        self.msg(target, from, &txt, conn_state);
    }

    pub fn botsnack(&mut self, message: IRCServerMessage, conn_state: &ConnectionState)
        ensures
            final(self)@ == botsnack_tr(old(self)@, message@, conn_state@),
    {
        let a = self.authed(&message.from);
        if !a {
            return ;
        }
        let target = clone_bytes(&message.target);
        let from = clone_entity(&message.from);
        let txt = smiley_text_vec();
        self.msg(target, from, &txt, conn_state);
    }

    pub fn authed(&mut self, from: &Entity) -> (r: bool)
        ensures
            *final(self) == *old(self),
            r == authed_spec(old(self)@, from@),
    {
        let c = match from {
            Entity::Client(c) => c,
            _ => {
                return false;
            },
        };
        match &self.bot_state.admin {
            Some(a) => *a == *c,
            None => false,
        }
    }
}

/// A fresh agent for one endpoint: nothing joined, no operator.
pub fn new(config: &Config, server: Server) -> (r: Bot)
    ensures
        r@.config == config@,
        r@.server == server@,
        r@.jobs.len() == 0,
        r@.connected == false,
        r@.admin is None,
{
    Bot {
        config: clone_config(config),
        server,
        job_queue: Vec::new(),
        bot_state: BotState { connected: false, admin: None },
    }
}

} // verus!
